//! Configuration management for the video chat extension.
use vstd::prelude::*;
use vstd::string::*;

use crate::common::error::{Error, ErrorView};

verus! {

/// TURN server configuration.
#[derive(Debug, Clone, PartialEq)]
pub struct TurnServer {
    /// TURN server URL
    pub url: String,
    /// Username for authentication
    pub username: Option<String>,
    /// Credential for authentication
    pub credential: Option<String>,
}

/// Main configuration for the video chat extension.
#[derive(Debug, Clone, PartialEq)]
pub struct Config {
    /// STUN server URLs
    pub stun_servers: Vec<String>,
    /// TURN server URLs (optional)
    pub turn_servers: Vec<TurnServer>,
    /// SFU server URL
    pub sfu_server_url: String,
    /// Signaling server URL
    pub signaling_server_url: String,
    /// Maximum number of participants
    pub max_participants: usize,
    /// Enable auto-delete for chat messages
    pub auto_delete_messages: bool,
    /// Admin mode (enables persistent logs)
    pub admin_mode: bool,
}

pub struct TurnServerView {
    pub url: Seq<char>,
    pub username: Option<Seq<char>>,
    pub credential: Option<Seq<char>>,
}

pub struct ConfigView {
    pub stun_servers: Seq<Seq<char>>,
    pub turn_servers: Seq<TurnServerView>,
    pub sfu_server_url: Seq<char>,
    pub signaling_server_url: Seq<char>,
    pub max_participants: nat,
    pub auto_delete_messages: bool,
    pub admin_mode: bool,
}

pub open spec fn opt_view(o: Option<String>) -> Option<Seq<char>> {
    match o {
        Some(s) => Some(s@),
        None => None,
    }
}

impl View for TurnServer {
    type V = TurnServerView;

    open spec fn view(&self) -> TurnServerView {
        TurnServerView {
            url: self.url@,
            username: opt_view(self.username),
            credential: opt_view(self.credential),
        }
    }
}

impl View for Config {
    type V = ConfigView;

    open spec fn view(&self) -> ConfigView {
        ConfigView {
            stun_servers: self.stun_servers@.map_values(|s: String| s@),
            turn_servers: self.turn_servers@.map_values(|t: TurnServer| t@),
            sfu_server_url: self.sfu_server_url@,
            signaling_server_url: self.signaling_server_url@,
            max_participants: self.max_participants as nat,
            auto_delete_messages: self.auto_delete_messages,
            admin_mode: self.admin_mode,
        }
    }
}

/// The configuration that [`Config::default`] gives.
pub open spec fn default_config() -> ConfigView {
    ConfigView {
        stun_servers: seq!["stun:stun.l.google.com:19302"@, "stun:stun1.l.google.com:19302"@],
        turn_servers: Seq::empty(),
        sfu_server_url: "ws://localhost:8080"@,
        signaling_server_url: "ws://localhost:8081"@,
        max_participants: 100,
        auto_delete_messages: true,
        admin_mode: false,
    }
}

/// The first problem that validation finds in `c`, if any.
pub open spec fn config_problem(c: ConfigView) -> Option<ErrorView> {
    if c.stun_servers.len() == 0 && c.turn_servers.len() == 0 {
        Some(ErrorView::Config("At least one STUN or TURN server must be configured"@))
    } else if c.sfu_server_url.len() == 0 {
        Some(ErrorView::Config("SFU server URL cannot be empty"@))
    } else if c.signaling_server_url.len() == 0 {
        Some(ErrorView::Config("Signaling server URL cannot be empty"@))
    } else if c.max_participants == 0 {
        Some(ErrorView::Config("Max participants must be greater than 0"@))
    } else {
        None
    }
}

impl Default for Config {
    fn default() -> (c: Self)
        ensures
            c@ == default_config(),
    {
        let c = Config {
            stun_servers: vec![
                "stun:stun.l.google.com:19302".to_owned(),
                "stun:stun1.l.google.com:19302".to_owned(),
            ],
            turn_servers: Vec::new(),
            sfu_server_url: "ws://localhost:8080".to_owned(),
            signaling_server_url: "ws://localhost:8081".to_owned(),
            max_participants: 100,
            auto_delete_messages: true,
            admin_mode: false,
        };
        assert(c@.stun_servers =~= default_config().stun_servers);
        assert(c@.turn_servers =~= default_config().turn_servers);
        c
    }
}

impl Config {
    /// Create a new configuration with default values.
    pub fn new() -> (c: Self)
        ensures
            c@ == default_config(),
    {
        Self::default()
    }

    /// Validate the configuration.
    pub fn validate(&self) -> (r: Result<(), Error>)
        ensures
            match r {
                Ok(()) => config_problem(self@) is None,
                Err(e) => config_problem(self@) == Some(e@),
            },
    {
        if self.stun_servers.len() == 0 && self.turn_servers.len() == 0 {
            return Err(Error::config("At least one STUN or TURN server must be configured"));
        }
        if self.sfu_server_url.as_str().is_empty() {
            return Err(Error::config("SFU server URL cannot be empty"));
        }
        if self.signaling_server_url.as_str().is_empty() {
            return Err(Error::config("Signaling server URL cannot be empty"));
        }
        if self.max_participants == 0 {
            return Err(Error::config("Max participants must be greater than 0"));
        }
        Ok(())
    }

    /// Add a STUN server.
    pub fn add_stun_server(&mut self, url: &str)
        ensures
            final(self)@ == (ConfigView {
                stun_servers: old(self)@.stun_servers.push(url@),
                ..old(self)@
            }),
    {
        self.stun_servers.push(url.to_owned());
        assert(self@.stun_servers =~= old(self)@.stun_servers.push(url@));
    }

    /// Add a TURN server.
    pub fn add_turn_server(&mut self, server: TurnServer)
        ensures
            final(self)@ == (ConfigView {
                turn_servers: old(self)@.turn_servers.push(server@),
                ..old(self)@
            }),
    {
        let ghost sv = server@;
        self.turn_servers.push(server);
        assert(self@.turn_servers =~= old(self)@.turn_servers.push(sv));
    }
}

/// The default configuration passes validation.
pub proof fn lemma_default_config_valid()
    ensures
        config_problem(default_config()) is None,
{
    reveal_strlit("ws://localhost:8080");
    reveal_strlit("ws://localhost:8081");
}

} // verus!
