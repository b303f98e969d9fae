use vstd::prelude::*;
use vstd::string::*;

use crate::text::{chars_of, ends_with, range_equals, range_starts_with, starts_with};

verus! {

broadcast use vstd::string::group_string_axioms;

/// The line separator of SDP text.
pub open spec fn crlf() -> Seq<char> {
    seq!['\r', '\n']
}

/// `s` holds the separator at position `i`.
pub open spec fn is_crlf_at(s: Seq<char>, i: int) -> bool {
    0 <= i && i + 1 < s.len() && s[i] == '\r' && s[i + 1] == '\n'
}

/// The lines of `s` that start at `start`, scanning for separators from `i` on.
pub open spec fn split_from(s: Seq<char>, i: int, start: int) -> Seq<Seq<char>>
    decreases s.len() - i,
{
    if i >= s.len() {
        seq![s.subrange(start, s.len() as int)]
    } else if is_crlf_at(s, i) {
        seq![s.subrange(start, i)] + split_from(s, i + 2, i + 2)
    } else {
        split_from(s, i + 1, start)
    }
}

/// The pieces of `s` between the separators, as `str::split("\r\n")` yields them.
pub open spec fn split_lines(s: Seq<char>) -> Seq<Seq<char>> {
    split_from(s, 0, 0)
}

/// The lines joined with the separator between them.
pub open spec fn join_lines(lines: Seq<Seq<char>>) -> Seq<char>
    decreases lines.len(),
{
    if lines.len() == 0 {
        Seq::empty()
    } else if lines.len() == 1 {
        lines[0]
    } else {
        join_lines(lines.drop_last()) + crlf() + lines.last()
    }
}

pub open spec fn audio_media_prefix() -> Seq<char> {
    seq!['m', '=', 'a', 'u', 'd', 'i', 'o']
}

pub open spec fn media_prefix() -> Seq<char> {
    seq!['m', '=']
}

pub open spec fn simulcast_prefix() -> Seq<char> {
    seq!['a', '=', 's', 'i', 'm', 'u', 'l', 'c', 'a', 's', 't', ':']
}

pub open spec fn rid_prefix() -> Seq<char> {
    seq!['a', '=', 'r', 'i', 'd', ':']
}

pub open spec fn recvonly_line() -> Seq<char> {
    seq!['a', '=', 'r', 'e', 'c', 'v', 'o', 'n', 'l', 'y']
}

pub open spec fn sendrecv_line() -> Seq<char> {
    seq!['a', '=', 's', 'e', 'n', 'd', 'r', 'e', 'c', 'v']
}

/// Whether the media section after `line` is an audio section, given that the one
/// before it was (`in_audio`).
pub open spec fn audio_after(line: Seq<char>, in_audio: bool) -> bool {
    if starts_with(line, audio_media_prefix()) {
        true
    } else if starts_with(line, media_prefix()) {
        false
    } else {
        in_audio
    }
}

/// A simulcast or RID attribute line, which sanitizing drops.
pub open spec fn is_simulcast_line(line: Seq<char>) -> bool {
    starts_with(line, simulcast_prefix()) || starts_with(line, rid_prefix())
}

/// What becomes of `line` in a section that is (or is not) an audio section.
pub open spec fn rewrite_line(line: Seq<char>, audio: bool) -> Option<Seq<char>> {
    if is_simulcast_line(line) {
        None
    } else if audio && line == recvonly_line() {
        Some(sendrecv_line())
    } else {
        Some(line)
    }
}

/// The lines that remain of `lines`, rewritten, when the section before them is
/// (or is not) an audio section.
pub open spec fn sanitize_lines(lines: Seq<Seq<char>>, in_audio: bool) -> Seq<Seq<char>>
    decreases lines.len(),
{
    if lines.len() == 0 {
        Seq::empty()
    } else {
        let audio = audio_after(lines[0], in_audio);
        let rest = sanitize_lines(lines.drop_first(), audio);
        match rewrite_line(lines[0], audio) {
            Some(l) => seq![l] + rest,
            None => rest,
        }
    }
}

/// The SDP text with simulcast and RID attributes removed and `a=recvonly` turned
/// into `a=sendrecv` inside audio sections.
pub open spec fn sanitized_sdp(s: Seq<char>) -> Seq<char> {
    let r = join_lines(sanitize_lines(split_lines(s), false));
    if ends_with(s, crlf()) && !ends_with(r, crlf()) {
        r + crlf()
    } else {
        r
    }
}

proof fn lemma_join_push(lines: Seq<Seq<char>>, l: Seq<char>)
    ensures
        join_lines(lines.push(l)) == if lines.len() == 0 {
            l
        } else {
            join_lines(lines) + crlf() + l
        },
{
    assert(lines.push(l).drop_last() =~= lines);
}


/// `l` holds no separator.
pub open spec fn no_crlf(l: Seq<char>) -> bool {
    forall|j: int| !#[trigger] is_crlf_at(l, j)
}

proof fn lemma_split_from_nonempty(s: Seq<char>, i: int, start: int)
    ensures
        split_from(s, i, start).len() >= 1,
    decreases s.len() - i,
{
    if i >= s.len() {
    } else if is_crlf_at(s, i) {
        lemma_split_from_nonempty(s, i + 2, i + 2);
    } else {
        lemma_split_from_nonempty(s, i + 1, start);
    }
}

proof fn lemma_join_front(l: Seq<char>, m: Seq<Seq<char>>)
    requires
        m.len() >= 1,
    ensures
        join_lines(seq![l] + m) == l + crlf() + join_lines(m),
    decreases m.len(),
{
    let lm = seq![l] + m;
    if m.len() == 1 {
        assert(lm.drop_last() =~= seq![l]);
        assert(join_lines(seq![l]) == l);
    } else {
        assert(lm.drop_last() =~= seq![l] + m.drop_last());
        lemma_join_front(l, m.drop_last());
        assert(lm.last() == m.last());
        assert(join_lines(m) == join_lines(m.drop_last()) + crlf() + m.last());
        assert(l + crlf() + join_lines(m) =~= l + crlf() + join_lines(m.drop_last()) + crlf()
            + m.last());
    }
}

/// Joining the lines that splitting yields gives back the text.
proof fn lemma_join_split_from(s: Seq<char>, i: int, start: int)
    requires
        0 <= start <= i <= s.len(),
    ensures
        join_lines(split_from(s, i, start)) == s.subrange(start, s.len() as int),
    decreases s.len() - i,
{
    if i >= s.len() {
        assert(join_lines(seq![s.subrange(start, s.len() as int)]) == s.subrange(
            start,
            s.len() as int,
        ));
    } else if is_crlf_at(s, i) {
        lemma_join_split_from(s, i + 2, i + 2);
        lemma_split_from_nonempty(s, i + 2, i + 2);
        lemma_join_front(s.subrange(start, i), split_from(s, i + 2, i + 2));
        assert(s.subrange(start, i) + crlf() + s.subrange(i + 2, s.len() as int) =~= s.subrange(
            start,
            s.len() as int,
        ));
    } else {
        lemma_join_split_from(s, i + 1, start);
    }
}

proof fn lemma_split_from_lines_no_crlf(s: Seq<char>, i: int, start: int)
    requires
        0 <= start <= i <= s.len(),
        forall|j: int| start <= j < i ==> !#[trigger] is_crlf_at(s, j),
    ensures
        forall|k: int|
            0 <= k < split_from(s, i, start).len() ==> no_crlf(#[trigger] split_from(s, i, start)[k]),
    decreases s.len() - i,
{
    if i >= s.len() {
        let l = s.subrange(start, s.len() as int);
        assert forall|j: int| !#[trigger] is_crlf_at(l, j) by {
            if is_crlf_at(l, j) {
                assert(is_crlf_at(s, start + j));
            }
        }
        assert(split_from(s, i, start) =~= seq![l]);
    } else if is_crlf_at(s, i) {
        let l = s.subrange(start, i);
        assert forall|j: int| !#[trigger] is_crlf_at(l, j) by {
            if is_crlf_at(l, j) {
                assert(is_crlf_at(s, start + j));
            }
        }
        lemma_split_from_lines_no_crlf(s, i + 2, i + 2);
        let rest = split_from(s, i + 2, i + 2);
        assert forall|k: int|
            0 <= k < split_from(s, i, start).len() implies no_crlf(
            #[trigger] split_from(s, i, start)[k],
        ) by {
            if k > 0 {
                assert(split_from(s, i, start)[k] == rest[k - 1]);
            }
        }
    } else {
        lemma_split_from_lines_no_crlf(s, i + 1, start);
        assert(split_from(s, i, start) == split_from(s, i + 1, start));
    }
}

proof fn lemma_split_lines_no_crlf(s: Seq<char>)
    ensures
        forall|k: int| 0 <= k < split_lines(s).len() ==> no_crlf(#[trigger] split_lines(s)[k]),
{
    lemma_split_from_lines_no_crlf(s, 0, 0);
}

/// Splitting ignores a prefix that the scan has already passed.
proof fn lemma_split_from_shift(a: Seq<char>, b: Seq<char>, i: int, start: int)
    requires
        0 <= start <= i <= b.len(),
    ensures
        split_from(a + b, a.len() + i, a.len() + start) == split_from(b, i, start),
    decreases b.len() - i,
{
    let t = a + b;
    assert(is_crlf_at(t, a.len() + i) == is_crlf_at(b, i));
    if i >= b.len() {
        assert(t.subrange(a.len() + start, t.len() as int) =~= b.subrange(start, b.len() as int));
    } else if is_crlf_at(b, i) {
        assert(t.subrange(a.len() + start, a.len() + i) =~= b.subrange(start, i));
        lemma_split_from_shift(a, b, i + 2, i + 2);
    } else {
        lemma_split_from_shift(a, b, i + 1, start);
    }
}

/// The scan runs through a stretch without separators up to the separator at `k`.
proof fn lemma_split_from_to_sep(t: Seq<char>, i: int, start: int, k: int)
    requires
        0 <= start <= i <= k,
        is_crlf_at(t, k),
        forall|j: int| i <= j < k ==> !#[trigger] is_crlf_at(t, j),
    ensures
        split_from(t, i, start) == seq![t.subrange(start, k)] + split_from(t, k + 2, k + 2),
    decreases k - i,
{
    if i < k {
        lemma_split_from_to_sep(t, i + 1, start, k);
    }
}

/// The scan runs to the end of a text without separators.
proof fn lemma_split_from_to_end(t: Seq<char>, i: int, start: int)
    requires
        0 <= start <= i <= t.len(),
        forall|j: int| i <= j < t.len() ==> !#[trigger] is_crlf_at(t, j),
    ensures
        split_from(t, i, start) == seq![t.subrange(start, t.len() as int)],
    decreases t.len() - i,
{
    if i < t.len() {
        lemma_split_from_to_end(t, i + 1, start);
    }
}

/// Splitting the joined lines gives back the lines, when none holds a separator.
proof fn lemma_split_join(lines: Seq<Seq<char>>)
    requires
        lines.len() >= 1,
        forall|k: int| 0 <= k < lines.len() ==> no_crlf(#[trigger] lines[k]),
    ensures
        split_lines(join_lines(lines)) == lines,
    decreases lines.len(),
{
    let l = lines[0];
    assert(no_crlf(l));
    if lines.len() == 1 {
        assert forall|j: int| 0 <= j < l.len() implies !#[trigger] is_crlf_at(l, j) by {}
        lemma_split_from_to_end(l, 0, 0);
        assert(l.subrange(0, l.len() as int) =~= l);
        assert(seq![l] =~= lines);
    } else {
        let m = lines.drop_first();
        assert(lines =~= seq![l] + m);
        assert forall|k: int| 0 <= k < m.len() implies no_crlf(#[trigger] m[k]) by {
            assert(m[k] == lines[k + 1]);
        }
        lemma_split_join(m);
        lemma_join_front(l, m);
        let a = l + crlf();
        let t = a + join_lines(m);
        assert(t =~= l + crlf() + join_lines(m));
        assert(is_crlf_at(t, l.len() as int));
        assert forall|j: int| 0 <= j < l.len() implies !#[trigger] is_crlf_at(t, j) by {
            if j + 1 < l.len() {
                assert(is_crlf_at(t, j) ==> is_crlf_at(l, j));
            }
        }
        lemma_split_from_to_sep(t, 0, 0, l.len() as int);
        assert(t.subrange(0, l.len() as int) =~= l);
        lemma_split_from_shift(a, join_lines(m), 0, 0);
        assert(split_lines(join_lines(m)) == split_from(join_lines(m), 0, 0));
    }
}

/// The section state after `lines`.
pub open spec fn audio_after_lines(lines: Seq<Seq<char>>, in_audio: bool) -> bool
    decreases lines.len(),
{
    if lines.len() == 0 {
        in_audio
    } else {
        audio_after_lines(lines.drop_first(), audio_after(lines[0], in_audio))
    }
}

proof fn lemma_sanitize_append(x: Seq<Seq<char>>, y: Seq<Seq<char>>, a: bool)
    ensures
        sanitize_lines(x + y, a) == sanitize_lines(x, a) + sanitize_lines(
            y,
            audio_after_lines(x, a),
        ),
    decreases x.len(),
{
    if x.len() == 0 {
        assert(x + y =~= y);
        assert(sanitize_lines(x, a) =~= Seq::<Seq<char>>::empty());
        assert(Seq::<Seq<char>>::empty() + sanitize_lines(y, a) =~= sanitize_lines(y, a));
    } else {
        assert((x + y).drop_first() =~= x.drop_first() + y);
        assert((x + y)[0] == x[0]);
        let b = audio_after(x[0], a);
        lemma_sanitize_append(x.drop_first(), y, b);
        match rewrite_line(x[0], b) {
            Some(l) => {
                assert(seq![l] + (sanitize_lines(x.drop_first(), b) + sanitize_lines(
                    y,
                    audio_after_lines(x.drop_first(), b),
                )) =~= (seq![l] + sanitize_lines(x.drop_first(), b)) + sanitize_lines(
                    y,
                    audio_after_lines(x.drop_first(), b),
                ));
            },
            None => {},
        }
    }
}

proof fn lemma_sanitize_lines_twice(x: Seq<Seq<char>>, a: bool)
    ensures
        sanitize_lines(sanitize_lines(x, a), a) == sanitize_lines(x, a),
    decreases x.len(),
{
    if x.len() > 0 {
        let l = x[0];
        let b = audio_after(l, a);
        lemma_sanitize_lines_twice(x.drop_first(), b);
        let rest = sanitize_lines(x.drop_first(), b);
        match rewrite_line(l, b) {
            Some(k) => {
                let y = seq![k] + rest;
                assert(y[0] == k);
                assert(y.drop_first() =~= rest);
                assert(!starts_with(sendrecv_line(), media_prefix())) by {
                    assert(sendrecv_line()[0] != media_prefix()[0]);
                    assert(sendrecv_line().subrange(0, 2)[0] == sendrecv_line()[0]);
                }
                assert(!starts_with(sendrecv_line(), audio_media_prefix())) by {
                    assert(sendrecv_line().subrange(0, 7)[0] == sendrecv_line()[0]);
                }
                assert(!is_simulcast_line(sendrecv_line())) by {
                    assert(sendrecv_line().subrange(0, 6)[2] == sendrecv_line()[2]);
                }
                assert(sendrecv_line() != recvonly_line()) by {
                    assert(sendrecv_line()[2] != recvonly_line()[2]);
                }
                if k != l {
                    assert(!starts_with(recvonly_line(), media_prefix())) by {
                        assert(recvonly_line().subrange(0, 2)[0] == recvonly_line()[0]);
                    }
                    assert(!starts_with(recvonly_line(), audio_media_prefix())) by {
                        assert(recvonly_line().subrange(0, 7)[0] == recvonly_line()[0]);
                    }
                }
                assert(audio_after(k, b) == b);
                assert(rewrite_line(k, b) == Some(k));
            },
            None => {
                assert(audio_after(l, a) == a) by {
                    if starts_with(l, media_prefix()) {
                        if starts_with(l, simulcast_prefix()) {
                            assert(l.subrange(0, 2)[0] == l[0]);
                            assert(l.subrange(0, 12)[0] == l[0]);
                        } else {
                            assert(l.subrange(0, 2)[0] == l[0]);
                            assert(l.subrange(0, 6)[0] == l[0]);
                        }
                    }
                    if starts_with(l, audio_media_prefix()) {
                        assert(l.subrange(0, 7)[0] == l[0]);
                        if starts_with(l, simulcast_prefix()) {
                            assert(l.subrange(0, 12)[0] == l[0]);
                        } else {
                            assert(l.subrange(0, 6)[0] == l[0]);
                        }
                    }
                }
            },
        }
    }
}


proof fn lemma_sendrecv_facts()
    ensures
        no_crlf(sendrecv_line()),
        !is_simulcast_line(sendrecv_line()),
{
    assert forall|j: int| !#[trigger] is_crlf_at(sendrecv_line(), j) by {}
    assert(sendrecv_line().subrange(0, 6)[2] == sendrecv_line()[2]);
}

proof fn lemma_sanitize_lines_props(x: Seq<Seq<char>>, a: bool)
    requires
        forall|k: int| 0 <= k < x.len() ==> no_crlf(#[trigger] x[k]),
    ensures
        forall|k: int|
            0 <= k < sanitize_lines(x, a).len() ==> no_crlf(#[trigger] sanitize_lines(x, a)[k]),
    decreases x.len(),
{
    if x.len() > 0 {
        lemma_sendrecv_facts();
        let b = audio_after(x[0], a);
        assert forall|k: int| 0 <= k < x.drop_first().len() implies no_crlf(
            #[trigger] x.drop_first()[k],
        ) by {
            assert(x.drop_first()[k] == x[k + 1]);
        }
        lemma_sanitize_lines_props(x.drop_first(), b);
        let rest = sanitize_lines(x.drop_first(), b);
        assert(no_crlf(x[0]));
        match rewrite_line(x[0], b) {
            Some(l) => {
                assert forall|k: int|
                    0 <= k < sanitize_lines(x, a).len() implies no_crlf(
                    #[trigger] sanitize_lines(x, a)[k],
                ) by {
                    if k > 0 {
                        assert(sanitize_lines(x, a)[k] == rest[k - 1]);
                    }
                }
            },
            None => {},
        }
    }
}

proof fn lemma_sanitize_lines_no_simulcast(x: Seq<Seq<char>>, a: bool)
    ensures
        forall|k: int|
            0 <= k < sanitize_lines(x, a).len() ==> !is_simulcast_line(
                #[trigger] sanitize_lines(x, a)[k],
            ),
    decreases x.len(),
{
    if x.len() > 0 {
        lemma_sendrecv_facts();
        let b = audio_after(x[0], a);
        lemma_sanitize_lines_no_simulcast(x.drop_first(), b);
        let rest = sanitize_lines(x.drop_first(), b);
        match rewrite_line(x[0], b) {
            Some(l) => {
                assert forall|k: int|
                    0 <= k < sanitize_lines(x, a).len() implies !is_simulcast_line(
                    #[trigger] sanitize_lines(x, a)[k],
                ) by {
                    if k > 0 {
                        assert(sanitize_lines(x, a)[k] == rest[k - 1]);
                    }
                }
            },
            None => {},
        }
    }
}

proof fn lemma_empty_line_kept(a: bool)
    ensures
        sanitize_lines(seq![Seq::<char>::empty()], a) == seq![Seq::<char>::empty()],
        audio_after_lines(seq![Seq::<char>::empty()], a) == a,
        no_crlf(Seq::<char>::empty()),
{
    let e = Seq::<char>::empty();
    assert(seq![e][0] == e);
    assert(!starts_with(e, media_prefix()));
    assert(!starts_with(e, audio_media_prefix()));
    assert(!is_simulcast_line(e));
    assert(audio_after(e, a) == a);
    assert(rewrite_line(e, a) == Some(e));
    assert(seq![e].drop_first() =~= Seq::<Seq<char>>::empty());
    assert(sanitize_lines(Seq::<Seq<char>>::empty(), a) == Seq::<Seq<char>>::empty());
    assert(seq![e] + Seq::<Seq<char>>::empty() =~= seq![e]);
    assert(audio_after_lines(Seq::<Seq<char>>::empty(), a) == a);
}

/// The lines of sanitized SDP text need no further rewriting.
pub proof fn lemma_sanitized_lines_are_final(s: Seq<char>)
    ensures
        sanitize_lines(split_lines(sanitized_sdp(s)), false) == split_lines(sanitized_sdp(s)),
{
    let x = split_lines(s);
    let l = sanitize_lines(x, false);
    let o = sanitized_sdp(s);
    let e = Seq::<char>::empty();
    lemma_split_lines_no_crlf(s);
    lemma_sanitize_lines_props(x, false);
    lemma_sanitize_lines_twice(x, false);
    lemma_empty_line_kept(false);
    if o == join_lines(l) {
        if l.len() >= 1 {
            lemma_split_join(l);
        } else {
            assert(join_lines(l) == e);
            assert(split_lines(e) == seq![e.subrange(0, 0)]);
            assert(e.subrange(0, 0) =~= e);
        }
    } else {
        let l2 = if l.len() >= 1 {
            l.push(e)
        } else {
            seq![e, e]
        };
        if l.len() >= 1 {
            lemma_join_push(l, e);
            assert(join_lines(l) + crlf() + e =~= join_lines(l) + crlf());
        } else {
            assert(join_lines(l) == e);
            assert(seq![e, e].drop_last() =~= seq![e]);
            assert(join_lines(seq![e]) == e);
            assert(seq![e, e].last() == e);
            assert(join_lines(seq![e, e]) == e + crlf() + e);
            assert(e + crlf() + e =~= e + crlf());
        }
        assert(join_lines(l2) == o);
        assert forall|k: int| 0 <= k < l2.len() implies no_crlf(#[trigger] l2[k]) by {
            if l.len() >= 1 && k < l.len() {
                assert(l2[k] == l[k]);
            }
        }
        lemma_split_join(l2);
        if l.len() >= 1 {
            assert(l2 =~= l + seq![e]);
            lemma_sanitize_append(l, seq![e], false);
            lemma_empty_line_kept(audio_after_lines(l, false));
        } else {
            assert(l2 =~= seq![e] + seq![e]);
            lemma_sanitize_append(seq![e], seq![e], false);
            assert(seq![e] + seq![e] =~= seq![e, e]);
        }
    }
}

/// No line of sanitized SDP text is a simulcast or RID attribute.
pub proof fn lemma_sanitized_has_no_simulcast_lines(s: Seq<char>)
    ensures
        forall|k: int|
            0 <= k < split_lines(sanitized_sdp(s)).len() ==> !is_simulcast_line(
                #[trigger] split_lines(sanitized_sdp(s))[k],
            ),
{
    lemma_sanitized_lines_are_final(s);
    lemma_sanitize_lines_no_simulcast(split_lines(sanitized_sdp(s)), false);
}

/// Sanitizing text that needs no rewriting gives the same text back.
pub proof fn lemma_sanitize_keeps_final_text(s: Seq<char>)
    requires
        sanitize_lines(split_lines(s), false) == split_lines(s),
    ensures
        sanitized_sdp(s) == s,
{
    lemma_join_split_from(s, 0, 0);
    assert(s.subrange(0, s.len() as int) =~= s);
}

/// No line of `lines` is a simulcast or RID attribute, and no line of an audio
/// section is `a=recvonly` (the section before the first line being an audio
/// section or not as `in_audio` says).
pub open spec fn needs_no_change(lines: Seq<Seq<char>>, in_audio: bool) -> bool
    decreases lines.len(),
{
    if lines.len() == 0 {
        true
    } else {
        let audio = audio_after(lines[0], in_audio);
        &&& !is_simulcast_line(lines[0])
        &&& !(audio && lines[0] == recvonly_line())
        &&& needs_no_change(lines.drop_first(), audio)
    }
}

proof fn lemma_sanitize_lines_unchanged(lines: Seq<Seq<char>>, in_audio: bool)
    requires
        needs_no_change(lines, in_audio),
    ensures
        sanitize_lines(lines, in_audio) == lines,
    decreases lines.len(),
{
    if lines.len() > 0 {
        let audio = audio_after(lines[0], in_audio);
        lemma_sanitize_lines_unchanged(lines.drop_first(), audio);
        assert(seq![lines[0]] + lines.drop_first() =~= lines);
    }
}

/// SDP text with no simulcast or RID attribute lines, and no `a=recvonly` line in
/// an audio section, comes back unchanged.
pub proof fn lemma_sanitize_keeps_clean_text(s: Seq<char>)
    requires
        needs_no_change(split_lines(s), false),
    ensures
        sanitized_sdp(s) == s,
{
    lemma_sanitize_lines_unchanged(split_lines(s), false);
    lemma_sanitize_keeps_final_text(s);
}

/// Sanitizing sanitized SDP text changes nothing.
pub proof fn lemma_sanitize_idempotent(s: Seq<char>)
    ensures
        sanitized_sdp(sanitized_sdp(s)) == sanitized_sdp(s),
{
    lemma_sanitized_lines_are_final(s);
    lemma_sanitize_keeps_final_text(sanitized_sdp(s));
}

/// The number of simulcast and RID attribute lines (`a=simulcast:` and `a=rid:`)
/// among `lines`.
pub open spec fn attribute_line_count(lines: Seq<Seq<char>>) -> nat
    decreases lines.len(),
{
    if lines.len() == 0 {
        0
    } else {
        (if starts_with(lines[0], "a=simulcast:"@) || starts_with(lines[0], "a=rid:"@) {
            1nat
        } else {
            0nat
        }) + attribute_line_count(lines.drop_first())
    }
}

/// Line `j` of `lines` lies in an audio media section: some `m=audio` line comes
/// before it with no other `m=` line between them.
pub open spec fn in_audio_section(lines: Seq<Seq<char>>, j: int) -> bool {
    exists|i: int|
        0 <= i < j && #[trigger] starts_with(lines[i], "m=audio"@) && forall|k: int|
            i < k < j ==> !starts_with(#[trigger] lines[k], "m="@)
}

proof fn lemma_prefix_literals()
    ensures
        "a=simulcast:"@ == simulcast_prefix(),
        "a=rid:"@ == rid_prefix(),
        "m=audio"@ == audio_media_prefix(),
        "m="@ == media_prefix(),
        "a=recvonly"@ == recvonly_line(),
        "a=sendrecv"@ == sendrecv_line(),
{
    reveal_strlit("a=simulcast:");
    reveal_strlit("a=rid:");
    reveal_strlit("m=audio");
    reveal_strlit("m=");
    reveal_strlit("a=recvonly");
    reveal_strlit("a=sendrecv");
    assert("a=simulcast:"@ =~= simulcast_prefix());
    assert("a=rid:"@ =~= rid_prefix());
    assert("m=audio"@ =~= audio_media_prefix());
    assert("m="@ =~= media_prefix());
    assert("a=recvonly"@ =~= recvonly_line());
    assert("a=sendrecv"@ =~= sendrecv_line());
}

proof fn lemma_sanitize_len(x: Seq<Seq<char>>, a: bool)
    ensures
        attribute_line_count(x) <= x.len(),
        sanitize_lines(x, a).len() == x.len() - attribute_line_count(x),
    decreases x.len(),
{
    lemma_prefix_literals();
    if x.len() > 0 {
        lemma_sanitize_len(x.drop_first(), audio_after(x[0], a));
    }
}

proof fn lemma_audio_after_push(x: Seq<Seq<char>>, l: Seq<char>, a: bool)
    ensures
        audio_after_lines(x.push(l), a) == audio_after(l, audio_after_lines(x, a)),
    decreases x.len(),
{
    if x.len() == 0 {
        assert(x.push(l) =~= seq![l]);
        assert(seq![l][0] == l);
        assert(seq![l].drop_first() =~= Seq::<Seq<char>>::empty());
        assert(audio_after_lines(Seq::<Seq<char>>::empty(), audio_after(l, a)) == audio_after(l, a));
    } else {
        assert(x.push(l)[0] == x[0]);
        assert(x.push(l).drop_first() =~= x.drop_first().push(l));
        lemma_audio_after_push(x.drop_first(), l, audio_after(x[0], a));
    }
}

proof fn lemma_state_is_section(lines: Seq<Seq<char>>, j: int)
    requires
        0 <= j <= lines.len(),
    ensures
        audio_after_lines(lines.take(j), false) == in_audio_section(lines, j),
    decreases j,
{
    lemma_prefix_literals();
    if j == 0 {
        assert(lines.take(0) =~= Seq::<Seq<char>>::empty());
    } else {
        let p = j - 1;
        lemma_state_is_section(lines, p);
        assert(lines.take(j) =~= lines.take(p).push(lines[p]));
        lemma_audio_after_push(lines.take(p), lines[p], false);
        let l = lines[p];
        if starts_with(l, audio_media_prefix()) {
            assert(in_audio_section(lines, j)) by {
                assert(starts_with(lines[p], "m=audio"@));
            }
        } else if starts_with(l, media_prefix()) {
            if in_audio_section(lines, j) {
                let i = choose|i: int|
                    0 <= i < j && #[trigger] starts_with(lines[i], "m=audio"@) && forall|k: int|
                        i < k < j ==> !starts_with(#[trigger] lines[k], "m="@);
                if i < p {
                    assert(!starts_with(lines[p], "m="@));
                }
            }
        } else {
            if in_audio_section(lines, j) {
                let i = choose|i: int|
                    0 <= i < j && #[trigger] starts_with(lines[i], "m=audio"@) && forall|k: int|
                        i < k < j ==> !starts_with(#[trigger] lines[k], "m="@);
                assert(i != p);
                assert(in_audio_section(lines, p));
            }
            if in_audio_section(lines, p) {
                let i = choose|i: int|
                    0 <= i < p && #[trigger] starts_with(lines[i], "m=audio"@) && forall|k: int|
                        i < k < p ==> !starts_with(#[trigger] lines[k], "m="@);
                assert forall|k: int| i < k < j implies !starts_with(#[trigger] lines[k], "m="@) by {
                    if k == p {
                        assert(!starts_with(l, media_prefix()));
                    }
                }
                assert(in_audio_section(lines, j));
            }
        }
    }
}

/// The lines of the sanitized text: the rewritten lines, then at most two empty
/// lines (where a final separator is kept).
proof fn lemma_output_lines(s: Seq<char>)
    ensures
        ({
            let l = sanitize_lines(split_lines(s), false);
            let out = split_lines(sanitized_sdp(s));
            &&& l.len() <= out.len() <= l.len() + 2
            &&& forall|k: int| 0 <= k < l.len() ==> out[k] == l[k]
            &&& forall|k: int| l.len() <= k < out.len() ==> out[k] == Seq::<char>::empty()
        }),
{
    let x = split_lines(s);
    let l = sanitize_lines(x, false);
    let o = sanitized_sdp(s);
    let e = Seq::<char>::empty();
    lemma_split_lines_no_crlf(s);
    lemma_sanitize_lines_props(x, false);
    if o == join_lines(l) {
        if l.len() >= 1 {
            lemma_split_join(l);
        } else {
            assert(join_lines(l) == e);
            assert(split_lines(e) == seq![e.subrange(0, 0)]);
            assert(e.subrange(0, 0) =~= e);
        }
    } else {
        let l2 = if l.len() >= 1 {
            l.push(e)
        } else {
            seq![e, e]
        };
        if l.len() >= 1 {
            lemma_join_push(l, e);
            assert(join_lines(l) + crlf() + e =~= join_lines(l) + crlf());
        } else {
            assert(join_lines(l) == e);
            assert(seq![e, e].drop_last() =~= seq![e]);
            assert(join_lines(seq![e]) == e);
            assert(seq![e, e].last() == e);
            assert(join_lines(seq![e, e]) == e + crlf() + e);
            assert(e + crlf() + e =~= e + crlf());
        }
        assert(join_lines(l2) == o);
        lemma_empty_line_kept(false);
        assert forall|k: int| 0 <= k < l2.len() implies no_crlf(#[trigger] l2[k]) by {
            if l.len() >= 1 && k < l.len() {
                assert(l2[k] == l[k]);
            }
        }
        lemma_split_join(l2);
    }
}

/// Sanitizing goes line by line. Splitting the text at its `\r\n` separators,
/// each line that is not a simulcast or RID attribute comes out in order, after
/// the attribute lines before it have been dropped: as `a=sendrecv` when it is an
/// `a=recvonly` line of an audio media section (one that an `m=audio` line opened
/// with no other `m=` line since, whatever other lines stand between), and as it
/// was otherwise.
pub proof fn lemma_sanitize_line_by_line(s: Seq<char>, j: int)
    requires
        0 <= j < split_lines(s).len(),
        !starts_with(split_lines(s)[j], "a=simulcast:"@),
        !starts_with(split_lines(s)[j], "a=rid:"@),
    ensures
        ({
            let lines = split_lines(s);
            let out = split_lines(sanitized_sdp(s));
            let k = j - attribute_line_count(lines.take(j));
            &&& 0 <= k < out.len()
            &&& out[k] == if lines[j] == "a=recvonly"@ && in_audio_section(lines, j) {
                "a=sendrecv"@
            } else {
                lines[j]
            }
        }),
{
    lemma_prefix_literals();
    let lines = split_lines(s);
    let x = lines.take(j);
    let y = lines.skip(j);
    assert(lines =~= x + y);
    lemma_sanitize_append(x, y, false);
    let st = audio_after_lines(x, false);
    lemma_state_is_section(lines, j);
    lemma_sanitize_len(x, false);
    lemma_output_lines(s);
    let l = lines[j];
    assert(y[0] == l);
    let b = audio_after(l, st);
    let first = sanitize_lines(y, st);
    assert(!is_simulcast_line(l));
    if l == recvonly_line() {
        assert(!starts_with(recvonly_line(), media_prefix())) by {
            assert(recvonly_line().subrange(0, 2)[0] == recvonly_line()[0]);
        }
        assert(!starts_with(recvonly_line(), audio_media_prefix())) by {
            assert(recvonly_line().subrange(0, 7)[0] == recvonly_line()[0]);
        }
        assert(b == st);
    }
    let expected = if b && l == recvonly_line() {
        sendrecv_line()
    } else {
        l
    };
    assert(rewrite_line(l, b) == Some(expected));
    assert(first[0] == expected);
    let whole = sanitize_lines(lines, false);
    let n = sanitize_lines(x, false).len() as int;
    assert(whole[n] == first[0]);
}

/// An `a=recvonly` line that follows an `m=audio` line, with no other `m=` line
/// between them, comes out as `a=sendrecv` (whatever other lines, such as `c=`
/// or `a=mid:`, stand between them).
pub proof fn lemma_audio_recvonly_becomes_sendrecv(s: Seq<char>, i: int, j: int)
    requires
        0 <= i < j < split_lines(s).len(),
        starts_with(split_lines(s)[i], "m=audio"@),
        split_lines(s)[j] == "a=recvonly"@,
        forall|k: int| i < k < j ==> !starts_with(#[trigger] split_lines(s)[k], "m="@),
    ensures
        ({
            let lines = split_lines(s);
            let out = split_lines(sanitized_sdp(s));
            let k = j - attribute_line_count(lines.take(j));
            0 <= k < out.len() && out[k] == "a=sendrecv"@
        }),
{
    lemma_prefix_literals();
    let lines = split_lines(s);
    assert(in_audio_section(lines, j));
    assert(!starts_with(lines[j], "a=simulcast:"@)) by {
        assert(lines[j].len() == 10);
    }
    assert(!starts_with(lines[j], "a=rid:"@)) by {
        assert(lines[j].subrange(0, 6)[3] == lines[j][3]);
    }
    lemma_sanitize_line_by_line(s, j);
}

/// Sanitized SDP text has the lines sanitizing keeps and nothing more: as many
/// as the input has lines that are not simulcast or RID attributes, followed by
/// at most two empty lines where a final separator is kept.
pub proof fn lemma_sanitize_line_count(s: Seq<char>)
    ensures
        ({
            let lines = split_lines(s);
            let out = split_lines(sanitized_sdp(s));
            let kept = lines.len() - attribute_line_count(lines);
            &&& kept <= out.len() <= kept + 2
            &&& forall|k: int| kept <= k < out.len() ==> out[k] == Seq::<char>::empty()
        }),
{
    lemma_sanitize_len(split_lines(s), false);
    lemma_output_lines(s);
}

/// Removes simulcast and RID attribute lines from SDP text and turns `a=recvonly`
/// into `a=sendrecv` in audio media sections, keeping the CRLF line structure.
pub struct NegotiationManager;

impl NegotiationManager {
    pub fn sanitize_sdp(sdp: &str) -> (res: String)
        ensures
            res@ == sanitized_sdp(sdp@),
    {
        let v = chars_of(sdp);
        let n = v.len();
        let audio_prefix = vec!['m', '=', 'a', 'u', 'd', 'i', 'o'];
        let m_prefix = vec!['m', '='];
        let simulcast = vec!['a', '=', 's', 'i', 'm', 'u', 'l', 'c', 'a', 's', 't', ':'];
        let rid = vec!['a', '=', 'r', 'i', 'd', ':'];
        let recvonly = vec!['a', '=', 'r', 'e', 'c', 'v', 'o', 'n', 'l', 'y'];
        proof {
            reveal_strlit("a=sendrecv");
            reveal_strlit("\r\n");
            assert(audio_prefix@ =~= audio_media_prefix());
            assert(m_prefix@ =~= media_prefix());
            assert(simulcast@ =~= simulcast_prefix());
            assert(rid@ =~= rid_prefix());
            assert(recvonly@ =~= recvonly_line());
            assert("a=sendrecv"@ =~= sendrecv_line());
            assert("\r\n"@ =~= crlf());
        }
        let ghost s = v@;
        let ghost mut emitted: Seq<Seq<char>> = Seq::empty();
        let mut out = String::new();
        let mut any = false;
        let mut in_audio = false;
        let mut start: usize = 0;
        let mut i: usize = 0;
        let mut done = false;
        while !done
            invariant
                s == sdp@,
                v@ == s,
                n == s.len(),
                audio_prefix@ == audio_media_prefix(),
                m_prefix@ == media_prefix(),
                simulcast@ == simulcast_prefix(),
                rid@ == rid_prefix(),
                recvonly@ == recvonly_line(),
                "a=sendrecv"@ == sendrecv_line(),
                "\r\n"@ == crlf(),
                start <= i <= n,
                any == (emitted.len() > 0),
                out@ == join_lines(emitted),
                !done ==> sanitize_lines(split_lines(s), false) == emitted + sanitize_lines(
                    split_from(s, i as int, start as int),
                    in_audio,
                ),
                done ==> sanitize_lines(split_lines(s), false) == emitted,
            decreases n - i + (if done { 0int } else { 1int }),
        {
            let at_end = i >= n;
            let at_sep = !at_end && i + 1 < n && v[i] == '\r' && v[i + 1] == '\n';
            if at_end || at_sep {
                let ghost line = s.subrange(start as int, i as int);
                let ghost rest_lines = if at_end {
                    Seq::<Seq<char>>::empty()
                } else {
                    split_from(s, i + 2, i + 2)
                };
                proof {
                    assert(split_from(s, i as int, start as int) =~= seq![line] + rest_lines);
                    assert((seq![line] + rest_lines).drop_first() =~= rest_lines);
                }
                if range_starts_with(&v, start, i, &audio_prefix) {
                    in_audio = true;
                } else if range_starts_with(&v, start, i, &m_prefix) {
                    in_audio = false;
                }
                let dropped = range_starts_with(&v, start, i, &simulcast)
                    || range_starts_with(&v, start, i, &rid);
                if !dropped {
                    let replace = in_audio && range_equals(&v, start, i, &recvonly);
                    let ghost piece = if replace { sendrecv_line() } else { line };
                    if any {
                        out.append("\r\n");
                    }
                    if replace {
                        out.append("a=sendrecv");
                    } else {
                        let part = sdp.substring_char(start, i);
                        out.append(part);
                    }
                    proof {
                        lemma_join_push(emitted, piece);
                        assert(seq![piece] + sanitize_lines(rest_lines, in_audio) =~= seq![piece]
                            + sanitize_lines(rest_lines, in_audio));
                        assert(emitted + (seq![piece] + sanitize_lines(rest_lines, in_audio))
                            =~= emitted.push(piece) + sanitize_lines(rest_lines, in_audio));
                        emitted = emitted.push(piece);
                    }
                    any = true;
                }
                if at_end {
                    done = true;
                    proof {
                        assert(emitted + sanitize_lines(rest_lines, in_audio) =~= emitted);
                    }
                } else {
                    i = i + 2;
                    start = i;
                }
            } else {
                proof {
                    assert(split_from(s, i as int, start as int) == split_from(
                        s,
                        i + 1,
                        start as int,
                    ));
                }
                i = i + 1;
            }
        }
        let ends_crlf = n >= 2 && v[n - 2] == '\r' && v[n - 1] == '\n';
        let out_chars = chars_of(out.as_str());
        let m = out_chars.len();
        let out_ends_crlf = m >= 2 && out_chars[m - 2] == '\r' && out_chars[m - 1] == '\n';
        proof {
            if n >= 2 {
                assert(ends_crlf == (s.subrange(n - 2, n as int) =~= crlf()));
            }
            if m >= 2 {
                assert(out_ends_crlf == (out@.subrange(m - 2, m as int) =~= crlf()));
            }
        }
        if ends_crlf && !out_ends_crlf {
            out.append("\r\n");
        }
        out
    }
}

} // verus!
