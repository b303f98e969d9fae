//! ICE server configuration.
use vstd::prelude::*;
use vstd::string::*;

use crate::text::{clone_opt, opt_chars};

verus! {

/// One ICE server: its URLs and the credentials it takes.
#[derive(Debug, Clone, PartialEq, Default)]
pub struct IceServerConfig {
    pub urls: Vec<String>,
    pub username: Option<String>,
    pub credential: Option<String>,
}

/// The ICE servers that peer connections use.
#[derive(Debug, Clone, PartialEq, Default)]
pub struct StunConfig {
    pub ice_servers: Vec<IceServerConfig>,
}

pub struct IceServerView {
    pub urls: Seq<Seq<char>>,
    pub username: Option<Seq<char>>,
    pub credential: Option<Seq<char>>,
}

impl View for IceServerConfig {
    type V = IceServerView;

    open spec fn view(&self) -> IceServerView {
        IceServerView {
            urls: self.urls@.map_values(|u: String| u@),
            username: opt_chars(self.username),
            credential: opt_chars(self.credential),
        }
    }
}

impl View for StunConfig {
    type V = Seq<IceServerView>;

    open spec fn view(&self) -> Seq<IceServerView> {
        self.ice_servers@.map_values(|s: IceServerConfig| s@)
    }
}

/// The STUN server used when none is configured.
pub open spec fn fallback_stun_url() -> Seq<char> {
    "stun:stun.l.google.com:19302"@
}

/// A server entry with one URL.
pub open spec fn single_url_server(
    url: Seq<char>,
    username: Option<Seq<char>>,
    credential: Option<Seq<char>>,
) -> IceServerView {
    IceServerView { urls: seq![url], username, credential }
}

/// The STUN URL configured, or the fallback.
pub open spec fn stun_url_or_fallback(stun_url: Option<Seq<char>>) -> Seq<char> {
    match stun_url {
        Some(u) => u,
        None => fallback_stun_url(),
    }
}

/// The entry of a single URL that a builder takes over as its own value.
fn server_with_url(
    url: String,
    username: &Option<String>,
    credential: &Option<String>,
) -> (s: IceServerConfig)
    ensures
        s@ == single_url_server(url@, opt_chars(*username), opt_chars(*credential)),
{
    let s = IceServerConfig {
        urls: vec![url],
        username: clone_opt(username),
        credential: clone_opt(credential),
    };
    assert(s@.urls =~= seq![url@]);
    s
}

/// The ICE servers for the configured values: the STUN server (or the fallback),
/// then one TURN server for each TURN URL, in order, all with the shared TURN
/// credentials.
pub fn stun_config_from_values(
    stun_url: Option<String>,
    turn_username: Option<String>,
    turn_credential: Option<String>,
    turn_urls: Vec<String>,
) -> (c: StunConfig)
    ensures
        c@.len() == turn_urls@.len() + 1,
        c@[0] == single_url_server(stun_url_or_fallback(opt_chars(stun_url)), None, None),
        forall|i: int|
            0 <= i < turn_urls@.len() ==> #[trigger] c@[i + 1] == single_url_server(
                turn_urls@[i]@,
                opt_chars(turn_username),
                opt_chars(turn_credential),
            ),
{
    let url = match stun_url {
        Some(u) => u,
        None => "stun:stun.l.google.com:19302".to_owned(),
    };
    let mut ice_servers: Vec<IceServerConfig> = Vec::new();
    ice_servers.push(server_with_url(url, &None, &None));
    let mut i: usize = 0;
    while i < turn_urls.len()
        invariant
            i <= turn_urls@.len(),
            ice_servers@.len() == i + 1,
            ice_servers@[0]@ == single_url_server(
                stun_url_or_fallback(opt_chars(stun_url)),
                None,
                None,
            ),
            forall|j: int|
                0 <= j < i ==> #[trigger] ice_servers@[j + 1]@ == single_url_server(
                    turn_urls@[j]@,
                    opt_chars(turn_username),
                    opt_chars(turn_credential),
                ),
        decreases turn_urls@.len() - i,
    {
        let url = turn_urls[i].clone();
        ice_servers.push(server_with_url(url, &turn_username, &turn_credential));
        i = i + 1;
    }
    StunConfig { ice_servers }
}

/// The ICE servers that the SFU server offers for its configured values: the
/// STUN server (or the fallback) and, only when both TURN credentials are set,
/// one TURN server for each TURN URL that is set, in order.
pub fn server_ice_config_from_values(
    stun_url: Option<String>,
    turn_username: Option<String>,
    turn_credential: Option<String>,
    turn_urls: Vec<Option<String>>,
) -> (c: StunConfig)
    ensures
        c@.len() >= 1,
        c@[0] == single_url_server(stun_url_or_fallback(opt_chars(stun_url)), None, None),
        turn_username is None || turn_credential is None ==> c@.len() == 1,
        turn_username is Some && turn_credential is Some ==> c@.drop_first()
            == present_turn_servers(
            turn_urls@.map_values(|u: Option<String>| opt_chars(u)),
            turn_username.unwrap()@,
            turn_credential.unwrap()@,
        ),
{
    let url = match stun_url {
        Some(u) => u,
        None => "stun:stun.l.google.com:19302".to_owned(),
    };
    let mut ice_servers: Vec<IceServerConfig> = Vec::new();
    ice_servers.push(server_with_url(url, &None, &None));
    if turn_username.is_some() && turn_credential.is_some() {
        let ghost urls = turn_urls@.map_values(|u: Option<String>| opt_chars(u));
        let ghost user = turn_username.unwrap()@;
        let ghost cred = turn_credential.unwrap()@;
        let mut i: usize = 0;
        while i < turn_urls.len()
            invariant
                turn_username is Some && turn_credential is Some,
                user == turn_username.unwrap()@,
                cred == turn_credential.unwrap()@,
                urls == turn_urls@.map_values(|u: Option<String>| opt_chars(u)),
                i <= turn_urls@.len(),
                ice_servers@.len() >= 1,
                ice_servers@[0]@ == single_url_server(
                    stun_url_or_fallback(opt_chars(stun_url)),
                    None,
                    None,
                ),
                ice_servers@.map_values(|s: IceServerConfig| s@).drop_first()
                    == present_turn_servers(urls.take(i as int), user, cred),
            decreases turn_urls@.len() - i,
        {
            let ghost before = ice_servers@.map_values(|s: IceServerConfig| s@);
            proof {
                assert(urls.take(i + 1).drop_last() =~= urls.take(i as int));
                assert(urls.take(i + 1).last() == opt_chars(turn_urls@[i as int]));
            }
            match &turn_urls[i] {
                Some(u) => {
                    let s = server_with_url(u.clone(), &turn_username, &turn_credential);
                    ice_servers.push(s);
                    proof {
                        assert(ice_servers@.map_values(|s: IceServerConfig| s@) =~= before.push(
                            single_url_server(u@, Some(user), Some(cred)),
                        ));
                        assert(before.push(single_url_server(u@, Some(user), Some(cred))).drop_first()
                            =~= before.drop_first().push(single_url_server(u@, Some(user), Some(cred))));
                    }
                },
                None => {
                    assert(ice_servers@.map_values(|s: IceServerConfig| s@) =~= before);
                },
            }
            i = i + 1;
        }
        proof {
            assert(urls.take(turn_urls@.len() as int) =~= urls);
        }
    }
    proof {
        if turn_username is None || turn_credential is None {
            assert(ice_servers@.len() == 1);
        }
    }
    StunConfig { ice_servers }
}

/// The TURN servers for the URLs that are set, each with the given credentials.
pub open spec fn present_turn_servers(
    urls: Seq<Option<Seq<char>>>,
    username: Seq<char>,
    credential: Seq<char>,
) -> Seq<IceServerView>
    decreases urls.len(),
{
    if urls.len() == 0 {
        Seq::empty()
    } else {
        let before = present_turn_servers(urls.drop_last(), username, credential);
        match urls.last() {
            Some(u) => before.push(single_url_server(u, Some(username), Some(credential))),
            None => before,
        }
    }
}

/// How a peer connection takes one ICE server: the URLs, the username and
/// credential (empty where none is set), and whether the credential is a password
/// (it is whenever a username is set).
pub struct IceServerCredentials {
    pub urls: Vec<String>,
    pub username: String,
    pub credential: String,
    pub password_credential: bool,
}

pub open spec fn chars_or_empty(o: Option<Seq<char>>) -> Seq<char> {
    match o {
        Some(s) => s,
        None => Seq::empty(),
    }
}

impl StunConfig {
    /// The servers in the form a peer connection takes them, one for each entry.
    pub fn credentials(&self) -> (r: Vec<IceServerCredentials>)
        ensures
            r@.len() == self@.len(),
            forall|i: int|
                0 <= i < r@.len() ==> {
                    &&& (#[trigger] r@[i]).urls@.map_values(|u: String| u@) == self@[i].urls
                    &&& r@[i].username@ == chars_or_empty(self@[i].username)
                    &&& r@[i].credential@ == chars_or_empty(self@[i].credential)
                    &&& r@[i].password_credential == self@[i].username is Some
                },
    {
        let mut r: Vec<IceServerCredentials> = Vec::new();
        let mut i: usize = 0;
        while i < self.ice_servers.len()
            invariant
                i <= self.ice_servers@.len(),
                r@.len() == i,
                forall|j: int|
                    0 <= j < i ==> {
                        &&& (#[trigger] r@[j]).urls@.map_values(|u: String| u@)
                            == self@[j].urls
                        &&& r@[j].username@ == chars_or_empty(self@[j].username)
                        &&& r@[j].credential@ == chars_or_empty(self@[j].credential)
                        &&& r@[j].password_credential == self@[j].username is Some
                    },
            decreases self.ice_servers@.len() - i,
        {
            let s = &self.ice_servers[i];
            let urls = s.urls.clone();
            proof {
                assert forall|k: int| 0 <= k < urls@.len() implies urls@[k]@ == s.urls@[k]@ by {
                    assert(cloned::<String>(s.urls@[k], urls@[k]));
                }
                assert(urls@.map_values(|u: String| u@) =~= s.urls@.map_values(|u: String| u@));
            }
            let username = match &s.username {
                Some(u) => u.clone(),
                None => String::new(),
            };
            let credential = match &s.credential {
                Some(c) => c.clone(),
                None => String::new(),
            };
            r.push(
                IceServerCredentials {
                    urls,
                    username,
                    credential,
                    password_credential: s.username.is_some(),
                },
            );
            i = i + 1;
        }
        r
    }
}

} // verus!
