//! The STOMP side of the radar feed: answering a client's CONNECT, learning the
//! subscription id from its SUBSCRIBE, and framing each radar snapshot as a
//! MESSAGE for that subscription.

use vstd::prelude::*;
use crate::text::{chars_of, contains_chars, count_until, lemma_count_until, occurs_at, seq_contains};

verus! {

broadcast use vstd::string::group_string_axioms;

/// The frame sent back to a client that connects.
pub open spec fn connected_frame() -> Seq<char> {
    "CONNECTED\nversion:1.2\n\n\0"@
}

/// A client frame is taken as CONNECT when it mentions both `CONNECT` and `accept-version`.
pub open spec fn is_connect_frame(t: Seq<char>) -> bool {
    seq_contains(t, "CONNECT"@) && seq_contains(t, "accept-version"@)
}

/// A client frame is taken as SUBSCRIBE when it mentions both `SUBSCRIBE` and `/topic/radar`.
pub open spec fn is_subscribe_frame(t: Seq<char>) -> bool {
    seq_contains(t, "SUBSCRIBE"@) && seq_contains(t, "/topic/radar"@)
}

/// `s` begins with the header name `id:`.
pub open spec fn has_id_tag(s: Seq<char>) -> bool {
    s.len() >= 3 && s[0] == 'i' && s[1] == 'd' && s[2] == ':'
}

/// `s` with every leading `id:` removed, repeatedly.
pub open spec fn strip_id_tags(s: Seq<char>) -> Seq<char>
    decreases s.len(),
{
    if has_id_tag(s) {
        strip_id_tags(s.skip(3))
    } else {
        s
    }
}

/// The first line of `t`: the characters before the first `'\n'`, without the
/// `'\r'` of a `"\r\n"` line ending.
pub open spec fn first_line(t: Seq<char>) -> Seq<char> {
    let e = count_until(t, '\n');
    if e < t.len() && e > 0 && t[e - 1] == '\r' {
        t.take(e - 1)
    } else {
        t.take(e as int)
    }
}

/// The first line of `t`, taken line by line as `str::lines` splits it, that
/// begins with `id:`.
pub open spec fn id_line(t: Seq<char>) -> Option<Seq<char>>
    decreases t.len(),
{
    if t.len() == 0 {
        None
    } else if has_id_tag(first_line(t)) {
        Some(first_line(t))
    } else if count_until(t, '\n') < t.len() {
        id_line(t.skip(count_until(t, '\n') + 1 as int))
    } else {
        None
    }
}

/// The subscription that a SUBSCRIBE frame names: its first `id:` line with
/// every leading `id:` removed, or `sub-0` when it has no such line.
pub open spec fn subscription_of(t: Seq<char>) -> Seq<char> {
    match id_line(t) {
        Some(line) => strip_id_tags(line),
        None => "sub-0"@,
    }
}

/// The MESSAGE frame that carries `payload` to subscription `id`.
pub open spec fn message_frame(id: Seq<char>, payload: Seq<char>) -> Seq<char> {
    "MESSAGE\nsubscription:"@ + id + "\ncontent-type:application/json\n\n"@ + payload + "\0"@
}

fn id_tag_at(cs: &Vec<char>, a: usize, end: usize) -> (b: bool)
    requires
        a <= end <= cs@.len(),
    ensures
        b == has_id_tag(cs@.subrange(a as int, end as int)),
{
    end - a >= 3 && cs[a] == 'i' && cs[a + 1] == 'd' && cs[a + 2] == ':'
}

/// The subscription id that a SUBSCRIBE frame names.
pub fn subscription_id(text: &str) -> (id: String)
    ensures
        id@ == subscription_of(text@),
{
    let cs = chars_of(text);
    let n = cs.len();
    let mut pos: usize = 0;
    proof {
        assert(text@.skip(0) =~= text@);
    }
    while pos < n
        invariant
            cs@ == text@,
            n == cs@.len(),
            pos <= n,
            id_line(text@) == id_line(text@.skip(pos as int)),
        decreases n - pos,
    {
        let ghost t = text@.skip(pos as int);
        let e = crate::text::find_char(&cs, pos, '\n');
        proof {
            lemma_count_until(t, '\n');
        }
        let mut le = e;
        if e < n && e > pos && cs[e - 1] == '\r' {
            le = e - 1;
        }
        proof {
            if e > pos {
                assert(t[(e - pos) - 1] == cs@[e - 1]);
            }
            assert(first_line(t) =~= text@.subrange(pos as int, le as int));
        }
        if id_tag_at(&cs, pos, le) {
            let mut a = pos;
            while id_tag_at(&cs, a, le)
                invariant
                    cs@ == text@,
                    n == cs@.len(),
                    pos <= a <= le <= n,
                    strip_id_tags(text@.subrange(pos as int, le as int)) == strip_id_tags(
                        text@.subrange(a as int, le as int),
                    ),
                decreases le - a,
            {
                proof {
                    assert(text@.subrange(a as int, le as int).skip(3) =~= text@.subrange(
                        a + 3,
                        le as int,
                    ));
                }
                a = a + 3;
            }
            let sub = text.substring_char(a, le);
            return String::from_str(sub);
        }
        if e < n {
            proof {
                assert(t.skip((e - pos) + 1) =~= text@.skip(e + 1));
            }
            pos = e + 1;
        } else {
            proof {
                assert(text@.skip(n as int).len() == 0);
            }
            pos = n;
        }
    }
    proof {
        assert(text@.skip(pos as int).len() == 0);
    }
    String::from_str("sub-0")
}

/// One client's STOMP conversation: the subscription its radar messages go to.
pub struct StompSession {
    subscription: String,
}

impl View for StompSession {
    type V = Seq<char>;

    closed spec fn view(&self) -> Seq<char> {
        self.subscription@
    }
}

impl StompSession {
    /// A session that has seen no SUBSCRIBE yet: its subscription is `sub-0`.
    pub fn new() -> (s: StompSession)
        ensures
            s@ == "sub-0"@,
    {
        StompSession { subscription: String::from_str("sub-0") }
    }

    /// The subscription that radar messages are framed for.
    pub fn subscription(&self) -> (s: &str)
        ensures
            s@ == self@,
    {
        self.subscription.as_str()
    }

    /// Handles a text frame from the client: a CONNECT is answered with the
    /// CONNECTED frame; a SUBSCRIBE sets the subscription; anything else is ignored.
    pub fn handle_client_frame(&mut self, text: &str) -> (reply: Option<String>)
        ensures
            is_connect_frame(text@) ==> (reply matches Some(r) && r@ == connected_frame()),
            is_connect_frame(text@) ==> final(self)@ == old(self)@,
            !is_connect_frame(text@) && is_subscribe_frame(text@) ==> reply is None
                && final(self)@ == subscription_of(text@),
            !is_connect_frame(text@) && !is_subscribe_frame(text@) ==> reply is None
                && final(self)@ == old(self)@,
    {
        let cs = chars_of(text);
        if contains_chars(&cs, &chars_of("CONNECT")) && contains_chars(
            &cs,
            &chars_of("accept-version"),
        ) {
            Some(String::from_str("CONNECTED\nversion:1.2\n\n\0"))
        } else if contains_chars(&cs, &chars_of("SUBSCRIBE")) && contains_chars(
            &cs,
            &chars_of("/topic/radar"),
        ) {
            self.subscription = subscription_id(text);
            None
        } else {
            None
        }
    }

    /// Frames one radar snapshot (JSON text) as a MESSAGE for the subscription.
    pub fn message_frame(&self, payload: &str) -> (f: String)
        ensures
            f@ == message_frame(self@, payload@),
    {
        let mut f = String::from_str("MESSAGE\nsubscription:");
        f.append(self.subscription.as_str());
        f.append("\ncontent-type:application/json\n\n");
        f.append(payload);
        f.append("\0");
        f
    }
}

proof fn lemma_strip_id_tags(s: Seq<char>)
    ensures
        !has_id_tag(strip_id_tags(s)),
        exists|k: int| 0 <= k <= s.len() && strip_id_tags(s) == s.skip(k),
    decreases s.len(),
{
    if has_id_tag(s) {
        lemma_strip_id_tags(s.skip(3));
        let k = choose|k: int| 0 <= k <= s.skip(3).len() && strip_id_tags(s.skip(3)) == s.skip(3).skip(k);
        assert(s.skip(3).skip(k) =~= s.skip(k + 3));
    } else {
        assert(s.skip(0) =~= s);
    }
}

proof fn lemma_id_line_single(t: Seq<char>)
    ensures
        id_line(t) matches Some(line) ==> forall|j: int| 0 <= j < line.len() ==> line[j] != '\n',
    decreases t.len(),
{
    if t.len() > 0 {
        lemma_count_until(t, '\n');
        if !has_id_tag(first_line(t)) && count_until(t, '\n') < t.len() {
            lemma_id_line_single(t.skip(count_until(t, '\n') + 1 as int));
        }
    }
}

/// The subscription that any client frame sets is one line, never begins with
/// `id:`, and so the header of a MESSAGE frame that names it stays intact.
pub proof fn lemma_subscription_is_one_line(t: Seq<char>)
    ensures
        forall|j: int| 0 <= j < subscription_of(t).len() ==> subscription_of(t)[j] != '\n',
        !has_id_tag(subscription_of(t)),
{
    lemma_id_line_single(t);
    match id_line(t) {
        Some(line) => {
            lemma_strip_id_tags(line);
            let k = choose|k: int| 0 <= k <= line.len() && strip_id_tags(line) == line.skip(k);
            assert forall|j: int| 0 <= j < subscription_of(t).len() implies subscription_of(t)[j]
                != '\n' by {
                assert(subscription_of(t)[j] == line[j + k]);
            }
        },
        None => {
            reveal_strlit("sub-0");
        },
    }
}

// ---- laws -----------------------------------------------------------------

/// Position `p` begins one of the lines of `t` (as `str::lines` splits it).
pub open spec fn is_line_start(t: Seq<char>, p: int) -> bool {
    0 <= p < t.len() && (p == 0 || t[p - 1] == '\n')
}

/// The line of `t` that begins at `p`: up to the next `'\n'` (or the end),
/// without the `'\r'` of a `"\r\n"` ending.
pub open spec fn line_at(t: Seq<char>, p: int) -> Seq<char> {
    let rest = t.skip(p);
    let e = count_until(rest, '\n');
    if e < rest.len() && e > 0 && rest[e - 1] == '\r' {
        rest.take(e - 1)
    } else {
        rest.take(e as int)
    }
}

/// `l` begins with the header name `id:`.
pub open spec fn begins_with_id(l: Seq<char>) -> bool {
    l.len() >= 3 && l.take(3) == seq!['i', 'd', ':']
}

proof fn lemma_line_at_zero(t: Seq<char>)
    ensures
        line_at(t, 0) == first_line(t),
{
    assert(t.skip(0) =~= t);
}

proof fn lemma_line_after_first(t: Seq<char>, q2: int)
    requires
        count_until(t, '\n') < t.len(),
        0 <= q2 < t.skip(count_until(t, '\n') + 1 as int).len(),
    ensures
        line_at(t.skip(count_until(t, '\n') + 1 as int), q2) == line_at(
            t,
            q2 + count_until(t, '\n') + 1,
        ),
        is_line_start(t.skip(count_until(t, '\n') + 1 as int), q2) <==> is_line_start(
            t,
            q2 + count_until(t, '\n') + 1,
        ),
{
    lemma_count_until(t, '\n');
    let e = count_until(t, '\n') as int;
    let t2 = t.skip(e + 1);
    assert(t2.skip(q2) =~= t.skip(q2 + e + 1));
    if q2 > 0 {
        assert(t2[q2 - 1] == t[q2 + e]);
    }
}

proof fn lemma_id_line_finds(t: Seq<char>, p: int)
    requires
        is_line_start(t, p),
        begins_with_id(line_at(t, p)),
        forall|q: int| 0 <= q < p && is_line_start(t, q) ==> !begins_with_id(#[trigger] line_at(t, q)),
    ensures
        id_line(t) == Some(line_at(t, p)),
    decreases t.len(),
{
    lemma_count_until(t, '\n');
    lemma_line_at_zero(t);
    let l0 = first_line(t);
    assert(has_id_tag(l0) <==> begins_with_id(l0)) by {
        if l0.len() >= 3 {
            assert(l0.take(3) =~= seq![l0[0], l0[1], l0[2]]);
        }
    }
    if p > 0 {
        assert(is_line_start(t, 0));
        let e = count_until(t, '\n') as int;
        if e > p - 1 {
            assert(t[p - 1] != '\n');
        }
        let t2 = t.skip(e + 1);
        let p2 = p - e - 1;
        lemma_line_after_first(t, p2);
        assert forall|q2: int| 0 <= q2 < p2 && is_line_start(t2, q2) implies !begins_with_id(
            #[trigger] line_at(t2, q2),
        ) by {
            lemma_line_after_first(t, q2);
            assert(is_line_start(t, q2 + e + 1));
            assert(!begins_with_id(line_at(t, q2 + e + 1)));
        }
        lemma_id_line_finds(t2, p2);
    }
}

proof fn lemma_id_line_absent(t: Seq<char>)
    requires
        forall|q: int| is_line_start(t, q) ==> !begins_with_id(#[trigger] line_at(t, q)),
    ensures
        id_line(t) is None,
    decreases t.len(),
{
    if t.len() > 0 {
        lemma_count_until(t, '\n');
        lemma_line_at_zero(t);
        let l0 = first_line(t);
        assert(is_line_start(t, 0));
        assert(!begins_with_id(line_at(t, 0)));
        assert(!has_id_tag(l0)) by {
            if l0.len() >= 3 {
                assert(l0.take(3) =~= seq![l0[0], l0[1], l0[2]]);
            }
        }
        let e = count_until(t, '\n') as int;
        if e < t.len() {
            let t2 = t.skip(e + 1);
            assert forall|q2: int| is_line_start(t2, q2) implies !begins_with_id(
                #[trigger] line_at(t2, q2),
            ) by {
                lemma_line_after_first(t, q2);
                assert(is_line_start(t, q2 + e + 1));
            }
            lemma_id_line_absent(t2);
        }
    }
}

proof fn lemma_strip_blocks(s: Seq<char>) -> (k: nat)
    ensures
        3 * k <= s.len(),
        forall|j: int| 0 <= j < k ==> #[trigger] s.subrange(3 * j, 3 * j + 3) == seq!['i', 'd', ':'],
        strip_id_tags(s) == s.skip(3 * k as int),
        !begins_with_id(strip_id_tags(s)),
    decreases s.len(),
{
    if has_id_tag(s) {
        let k2 = lemma_strip_blocks(s.skip(3));
        assert forall|j: int| 0 <= j < k2 + 1 implies #[trigger] s.subrange(3 * j, 3 * j + 3) == seq![
            'i',
            'd',
            ':',
        ] by {
            if j == 0 {
                assert(s.subrange(0, 3) =~= seq!['i', 'd', ':']);
            } else {
                assert(s.subrange(3 * j, 3 * j + 3) =~= s.skip(3).subrange(3 * (j - 1), 3 * (j - 1) + 3));
            }
        }
        assert(s.skip(3).skip(3 * k2 as int) =~= s.skip(3 * (k2 + 1) as int));
        k2 + 1
    } else {
        assert(s.skip(0) =~= s);
        let r = strip_id_tags(s);
        if r.len() >= 3 && r.take(3) == seq!['i', 'd', ':'] {
            assert(r[0] == r.take(3)[0] && r[1] == r.take(3)[1] && r[2] == r.take(3)[2]);
        }
        0
    }
}

/// The subscription comes from the first line of the frame, among all its
/// lines and whatever lines come before it, that begins with `id:`: it is that
/// line with every leading `id:` (`k` of them, at least one) removed, and it
/// does not itself begin with `id:`.
pub proof fn lemma_subscription_first_id_line(t: Seq<char>, p: int) -> (k: nat)
    requires
        is_line_start(t, p),
        begins_with_id(line_at(t, p)),
        forall|q: int| 0 <= q < p && is_line_start(t, q) ==> !begins_with_id(#[trigger] line_at(t, q)),
    ensures
        1 <= k,
        3 * k <= line_at(t, p).len(),
        forall|j: int| 0 <= j < k ==> #[trigger] line_at(t, p).subrange(3 * j, 3 * j + 3) == seq![
            'i',
            'd',
            ':',
        ],
        subscription_of(t) == line_at(t, p).skip(3 * k as int),
        !begins_with_id(subscription_of(t)),
{
    lemma_id_line_finds(t, p);
    let l = line_at(t, p);
    let k = lemma_strip_blocks(l);
    if k == 0 {
        assert(l.skip(0) =~= l);
    }
    k
}

/// A frame none of whose lines begins with `id:` names subscription `sub-0`.
pub proof fn lemma_subscription_default(t: Seq<char>)
    requires
        forall|q: int| is_line_start(t, q) ==> !begins_with_id(#[trigger] line_at(t, q)),
    ensures
        subscription_of(t) == "sub-0"@,
{
    lemma_id_line_absent(t);
}

/// A frame is a CONNECT wherever in it `CONNECT` and `accept-version` occur,
/// in any order, and only if both occur.
pub proof fn lemma_connect_frame_anywhere(t: Seq<char>, i: int, j: int)
    ensures
        (0 <= i && i + 7 <= t.len() && t.subrange(i, i + 7) == "CONNECT"@ && 0 <= j && j + 14
            <= t.len() && t.subrange(j, j + 14) == "accept-version"@) ==> is_connect_frame(t),
        is_connect_frame(t) ==> (exists|a: int|
            0 <= a && a + 7 <= t.len() && #[trigger] t.subrange(a, a + 7) == "CONNECT"@)
            && (exists|b: int|
            0 <= b && b + 14 <= t.len() && #[trigger] t.subrange(b, b + 14) == "accept-version"@),
{
    reveal_strlit("CONNECT");
    reveal_strlit("accept-version");
    if 0 <= i && i + 7 <= t.len() && t.subrange(i, i + 7) == "CONNECT"@ && 0 <= j && j + 14
        <= t.len() && t.subrange(j, j + 14) == "accept-version"@ {
        assert(occurs_at(t, "CONNECT"@, i));
        assert(occurs_at(t, "accept-version"@, j));
    }
}

/// A frame is a SUBSCRIBE to the radar wherever in it `SUBSCRIBE` and
/// `/topic/radar` occur, in any order, and only if both occur.
pub proof fn lemma_subscribe_frame_anywhere(t: Seq<char>, i: int, j: int)
    ensures
        (0 <= i && i + 9 <= t.len() && t.subrange(i, i + 9) == "SUBSCRIBE"@ && 0 <= j && j + 12
            <= t.len() && t.subrange(j, j + 12) == "/topic/radar"@) ==> is_subscribe_frame(t),
        is_subscribe_frame(t) ==> (exists|a: int|
            0 <= a && a + 9 <= t.len() && #[trigger] t.subrange(a, a + 9) == "SUBSCRIBE"@)
            && (exists|b: int|
            0 <= b && b + 12 <= t.len() && #[trigger] t.subrange(b, b + 12) == "/topic/radar"@),
{
    reveal_strlit("SUBSCRIBE");
    reveal_strlit("/topic/radar");
    if 0 <= i && i + 9 <= t.len() && t.subrange(i, i + 9) == "SUBSCRIBE"@ && 0 <= j && j + 12
        <= t.len() && t.subrange(j, j + 12) == "/topic/radar"@ {
        assert(occurs_at(t, "SUBSCRIBE"@, i));
        assert(occurs_at(t, "/topic/radar"@, j));
    }
}

proof fn lemma_occurs_extended(t: Seq<char>, pre: Seq<char>, post: Seq<char>, n: Seq<char>)
    requires
        seq_contains(t, n),
    ensures
        seq_contains(pre + t + post, n),
{
    let i = choose|i: int| occurs_at(t, n, i);
    let u = pre + t + post;
    assert(u.subrange(pre.len() + i, pre.len() + i + n.len()) =~= t.subrange(i, i + n.len()));
    assert(occurs_at(u, n, pre.len() + i));
}

/// Text added before or after a frame (more headers, a body) never stops a
/// CONNECT or SUBSCRIBE frame from being one.
pub proof fn lemma_frame_kind_survives_extension(t: Seq<char>, pre: Seq<char>, post: Seq<char>)
    ensures
        is_connect_frame(t) ==> is_connect_frame(pre + t + post),
        is_subscribe_frame(t) ==> is_subscribe_frame(pre + t + post),
{
    if is_connect_frame(t) {
        lemma_occurs_extended(t, pre, post, "CONNECT"@);
        lemma_occurs_extended(t, pre, post, "accept-version"@);
    }
    if is_subscribe_frame(t) {
        lemma_occurs_extended(t, pre, post, "SUBSCRIBE"@);
        lemma_occurs_extended(t, pre, post, "/topic/radar"@);
    }
}

/// A MESSAGE frame is its header block (`MESSAGE`, `subscription:` and the id,
/// the JSON content type, a blank line) followed by the whole payload and one
/// NUL: its length is 54 + the id's length + the payload's length, and the
/// payload stands in it unchanged.
pub proof fn lemma_message_frame_layout(id: Seq<char>, payload: Seq<char>)
    ensures
        message_frame(id, payload).len() == 54 + (id.len() as int) + (payload.len() as int),
        message_frame(id, payload).subrange(0, 21) == "MESSAGE\nsubscription:"@,
        message_frame(id, payload).subrange(21, 21 + (id.len() as int)) == id,
        message_frame(id, payload).subrange(21 + (id.len() as int), 53 + (id.len() as int))
            == "\ncontent-type:application/json\n\n"@,
        message_frame(id, payload).subrange(53 + (id.len() as int), 53 + (id.len() as int) + (payload.len() as int))
            == payload,
        message_frame(id, payload)[53 + (id.len() as int) + (payload.len() as int)] == '\0',
{
    reveal_strlit("MESSAGE\nsubscription:");
    reveal_strlit("\ncontent-type:application/json\n\n");
    reveal_strlit("\0");
    let f = message_frame(id, payload);
    let h1 = "MESSAGE\nsubscription:"@;
    let h2 = "\ncontent-type:application/json\n\n"@;
    assert(f.subrange(0, 21) =~= h1);
    assert(f.subrange(21, 21 + (id.len() as int)) =~= id);
    assert(f.subrange(21 + (id.len() as int), 53 + (id.len() as int)) =~= h2);
    assert(f.subrange(53 + (id.len() as int), 53 + (id.len() as int) + (payload.len() as int)) =~= payload);
}

} // verus!
