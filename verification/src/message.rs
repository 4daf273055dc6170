//! Wire frames and the text-command grammar of the relay.
//!
//! Payloads are the raw UTF-8 bytes of a text frame; the router never
//! interprets content beyond the whisper-command prefix.

use vstd::prelude::*;

verus! {

/// One message frame as the transport hands it over: a text payload, an
/// opaque binary payload, or a close notification.
pub enum Frame {
    Text(Vec<u8>),
    Binary(Vec<u8>),
    Close,
}

/// Mathematical model of a [`Frame`]: the same shape over `Seq<u8>`.
#[verifier::ext_equal]
pub enum FrameModel {
    Text(Seq<u8>),
    Binary(Seq<u8>),
    Close,
}

impl View for Frame {
    type V = FrameModel;

    open spec fn view(&self) -> FrameModel {
        match self {
            Frame::Text(p) => FrameModel::Text(p@),
            Frame::Binary(p) => FrameModel::Binary(p@),
            Frame::Close => FrameModel::Close,
        }
    }
}

impl DeepView for Frame {
    type V = FrameModel;

    open spec fn deep_view(&self) -> FrameModel {
        self.view()
    }
}

impl Frame {
    /// An independent copy of the frame with the same payload.
    pub fn duplicate(&self) -> (r: Frame)
        ensures
            r@ == self@,
    {
        match self {
            Frame::Text(p) => Frame::Text(copy_bytes(p)),
            Frame::Binary(p) => Frame::Binary(copy_bytes(p)),
            Frame::Close => Frame::Close,
        }
    }
}

/// An independent copy of a byte vector.
pub fn copy_bytes(b: &Vec<u8>) -> (r: Vec<u8>)
    ensures
        r@ == b@,
{
    let mut r: Vec<u8> = Vec::new();
    let mut i: usize = 0;
    while i < b.len()
        invariant
            i <= b.len(),
            r@ == b@.take(i as int),
        decreases b.len() - i,
    {
        r.push(b[i]);
        proof {
            assert(r@ =~= b@.take(i + 1));
        }
        i = i + 1;
    }
    proof {
        assert(r@ =~= b@);
    }
    r
}

/// A copy of `b[from..to]`.
pub fn copy_range(b: &Vec<u8>, from: usize, to: usize) -> (r: Vec<u8>)
    requires
        from <= to <= b@.len(),
    ensures
        r@ == b@.subrange(from as int, to as int),
{
    let mut r: Vec<u8> = Vec::new();
    let mut i: usize = from;
    while i < to
        invariant
            from <= i <= to <= b@.len(),
            r@ == b@.subrange(from as int, i as int),
        decreases to - i,
    {
        r.push(b[i]);
        proof {
            assert(r@ =~= b@.subrange(from as int, i + 1));
        }
        i = i + 1;
    }
    r
}

/// Are two byte vectors equal as sequences?
pub fn bytes_eq(a: &Vec<u8>, b: &Vec<u8>) -> (r: bool)
    ensures
        r == (a@ == b@),
{
    if a.len() != b.len() {
        return false;
    }
    let mut i: usize = 0;
    while i < a.len()
        invariant
            i <= a.len(),
            a@.len() == b@.len(),
            forall|j: int| 0 <= j < i ==> a@[j] == b@[j],
        decreases a.len() - i,
    {
        if a[i] != b[i] {
            return false;
        }
        i = i + 1;
    }
    proof {
        assert(a@ =~= b@);
    }
    true
}

/// Append `src` to `dst`.
pub fn append_bytes(dst: &mut Vec<u8>, src: &Vec<u8>)
    ensures
        final(dst)@ == old(dst)@ + src@,
{
    proof {
        assert(old(dst)@ + src@.take(0) =~= old(dst)@);
    }
    let mut i: usize = 0;
    while i < src.len()
        invariant
            i <= src.len(),
            dst@ == old(dst)@ + src@.take(i as int),
        decreases src.len() - i,
    {
        dst.push(src[i]);
        proof {
            assert(dst@ =~= old(dst)@ + src@.take(i + 1));
        }
        i = i + 1;
    }
    proof {
        assert(old(dst)@ + src@.take(src@.len() as int) =~= old(dst)@ + src@);
    }
}

/// The tag that opens every private message: `"(Private) "`.
pub open spec fn private_tag() -> Seq<u8> {
    seq![40u8, 80u8, 114u8, 105u8, 118u8, 97u8, 116u8, 101u8, 41u8, 32u8]
}

/// The separator between sender and recipient: `" -> "`.
pub open spec fn name_arrow() -> Seq<u8> {
    seq![32u8, 45u8, 62u8, 32u8]
}

/// The separator before the body: `": "`.
pub open spec fn body_colon() -> Seq<u8> {
    seq![58u8, 32u8]
}

/// The text of a private message:
/// `"(Private) <sender> -> <recipient>: <body>"`.
pub open spec fn private_text(sender: Seq<u8>, recipient: Seq<u8>, body: Seq<u8>) -> Seq<u8> {
    private_tag() + sender + name_arrow() + recipient + body_colon() + body
}

/// Build the private-message text exactly as [`private_text`] says.
pub fn build_private_text(sender: &Vec<u8>, recipient: &Vec<u8>, body: &Vec<u8>) -> (r: Vec<u8>)
    ensures
        r@ == private_text(sender@, recipient@, body@),
{
    let mut r: Vec<u8> = Vec::new();
    r.push(40u8);
    r.push(80u8);
    r.push(114u8);
    r.push(105u8);
    r.push(118u8);
    r.push(97u8);
    r.push(116u8);
    r.push(101u8);
    r.push(41u8);
    r.push(32u8);
    append_bytes(&mut r, sender);
    r.push(32u8);
    r.push(45u8);
    r.push(62u8);
    r.push(32u8);
    append_bytes(&mut r, recipient);
    r.push(58u8);
    r.push(32u8);
    append_bytes(&mut r, body);
    proof {
        assert(r@ =~= private_text(sender@, recipient@, body@));
    }
    r
}

/// ASCII whitespace, the characters the control-token check trims.
pub open spec fn is_ws(b: u8) -> bool {
    b == 32 || (9 <= b && b <= 13)
}

/// Length of the whitespace prefix of `s`.
pub open spec fn ws_prefix_len(s: Seq<u8>) -> int
    decreases s.len(),
{
    if s.len() == 0 || !is_ws(s[0]) {
        0
    } else {
        1 + ws_prefix_len(s.drop_first())
    }
}

/// Length of the whitespace suffix of `s`.
pub open spec fn ws_suffix_len(s: Seq<u8>) -> int
    decreases s.len(),
{
    if s.len() == 0 || !is_ws(s.last()) {
        0
    } else {
        1 + ws_suffix_len(s.drop_last())
    }
}

/// `ws_prefix_len(s)` is the index of the first non-whitespace byte of `s`
/// (or the length of `s` when all of it is whitespace).
pub proof fn lemma_ws_prefix_len(s: Seq<u8>)
    ensures
        0 <= ws_prefix_len(s) <= s.len(),
        forall|j: int| 0 <= j < ws_prefix_len(s) ==> is_ws(s[j]),
        ws_prefix_len(s) < s.len() ==> !is_ws(s[ws_prefix_len(s)]),
    decreases s.len(),
{
    if s.len() == 0 || !is_ws(s[0]) {
    } else {
        lemma_ws_prefix_len(s.drop_first());
        assert forall|j: int| 0 <= j < ws_prefix_len(s) implies is_ws(s[j]) by {
            if j > 0 {
                assert(s.drop_first()[j - 1] == s[j]);
            }
        }
        if ws_prefix_len(s) < s.len() {
            assert(s.drop_first()[ws_prefix_len(s) - 1] == s[ws_prefix_len(s)]);
        }
    }
}

/// `ws_suffix_len(s)` counts exactly the trailing whitespace bytes of `s`.
pub proof fn lemma_ws_suffix_len(s: Seq<u8>)
    ensures
        0 <= ws_suffix_len(s) <= s.len(),
        forall|j: int| s.len() - ws_suffix_len(s) <= j < s.len() ==> is_ws(s[j]),
        ws_suffix_len(s) < s.len() ==> !is_ws(s[s.len() - ws_suffix_len(s) - 1]),
    decreases s.len(),
{
    if s.len() == 0 || !is_ws(s.last()) {
    } else {
        lemma_ws_suffix_len(s.drop_last());
        assert forall|j: int| s.len() - ws_suffix_len(s) <= j < s.len() implies is_ws(
            s[j],
        ) by {
            if j < s.len() - 1 {
                assert(s.drop_last()[j] == s[j]);
            }
        }
        if ws_suffix_len(s) < s.len() {
            assert(s.drop_last()[s.len() - ws_suffix_len(s) - 1] == s[s.len() - ws_suffix_len(s)
                - 1]);
        }
    }
}

/// `s` without its whitespace prefix and suffix.
pub open spec fn trim_spec(s: Seq<u8>) -> Seq<u8> {
    let inner = s.skip(ws_prefix_len(s));
    inner.take(inner.len() - ws_suffix_len(inner))
}

/// The control token that asks the session to close itself.
pub open spec fn close_token() -> Seq<u8> {
    seq![99u8, 108u8, 111u8, 115u8, 101u8]
}

/// The command prefix that addresses a single recipient.
pub open spec fn whisper_prefix() -> Seq<u8> {
    seq![47u8, 119u8, 104u8, 105u8, 115u8, 112u8, 101u8, 114u8, 32u8]
}

/// Does `t` begin with the whisper command prefix?
pub open spec fn has_whisper_prefix(t: Seq<u8>) -> bool {
    t.len() >= whisper_prefix().len() && t.take(whisper_prefix().len() as int)
        == whisper_prefix()
}

/// How the session treats one inbound text payload.
pub enum Command {
    /// Deliver the body privately to the named recipient.
    Whisper { recipient: Vec<u8>, body: Vec<u8> },
    /// A whisper command without a message body: rejected, nothing routed.
    InvalidWhisper,
    /// The trimmed payload is the close control token.
    CloseRequest,
    /// Any other payload: relay it to everyone else.
    Broadcast,
}

/// Mathematical model of a [`Command`].
pub enum CommandModel {
    Whisper { recipient: Seq<u8>, body: Seq<u8> },
    InvalidWhisper,
    CloseRequest,
    Broadcast,
}

impl View for Command {
    type V = CommandModel;

    open spec fn view(&self) -> CommandModel {
        match self {
            Command::Whisper { recipient, body } => CommandModel::Whisper {
                recipient: recipient@,
                body: body@,
            },
            Command::InvalidWhisper => CommandModel::InvalidWhisper,
            Command::CloseRequest => CommandModel::CloseRequest,
            Command::Broadcast => CommandModel::Broadcast,
        }
    }
}

/// Classification of a text payload, at the specification level.
///
/// A payload that begins with `/whisper ` names its recipient up to the next
/// space; the remainder after that space is the body (either may be empty).
/// Without such a space the command is malformed. The close token is matched
/// case-sensitively after trimming; everything else is a broadcast.
pub open spec fn classify_spec(t: Seq<u8>) -> CommandModel {
    if has_whisper_prefix(t) {
        let rest = t.skip(whisper_prefix().len() as int);
        match rest.index_of_first(32u8) {
            Some(i) => CommandModel::Whisper {
                recipient: rest.take(i),
                body: rest.skip(i + 1),
            },
            None => CommandModel::InvalidWhisper,
        }
    } else if trim_spec(t) == close_token() {
        CommandModel::CloseRequest
    } else {
        CommandModel::Broadcast
    }
}

/// The byte at position `i` of the whisper prefix.
fn whisper_prefix_byte(i: usize) -> (b: u8)
    requires
        i < whisper_prefix().len(),
    ensures
        b == whisper_prefix()[i as int],
{
    if i == 0 {
        47u8
    } else if i == 1 {
        119u8
    } else if i == 2 {
        104u8
    } else if i == 3 {
        105u8
    } else if i == 4 {
        115u8
    } else if i == 5 {
        112u8
    } else if i == 6 {
        101u8
    } else if i == 7 {
        114u8
    } else {
        32u8
    }
}

/// Does `t` begin with `/whisper `?
fn check_whisper_prefix(t: &Vec<u8>) -> (r: bool)
    ensures
        r == has_whisper_prefix(t@),
{
    if t.len() < 9 {
        return false;
    }
    let mut i: usize = 0;
    while i < 9
        invariant
            i <= 9,
            t@.len() >= 9,
            forall|j: int| 0 <= j < i ==> t@[j] == whisper_prefix()[j],
        decreases 9 - i,
    {
        if t[i] != whisper_prefix_byte(i) {
            proof {
                assert(t@.take(9)[i as int] != whisper_prefix()[i as int]);
            }
            return false;
        }
        i = i + 1;
    }
    proof {
        assert(t@.take(9) =~= whisper_prefix());
    }
    true
}

/// Is the trimmed payload exactly the close token?
fn check_close_token(t: &Vec<u8>) -> (r: bool)
    ensures
        r == (trim_spec(t@) == close_token()),
{
    let n = t.len();
    let mut lo: usize = 0;
    while lo < n && is_ws_byte(t[lo])
        invariant
            lo <= n,
            n == t@.len(),
            forall|j: int| 0 <= j < lo ==> is_ws(t@[j]),
        decreases n - lo,
    {
        lo = lo + 1;
    }
    proof {
        lemma_ws_prefix_len(t@);
        assert(lo == ws_prefix_len(t@));
    }
    let mut hi: usize = n;
    while hi > lo && is_ws_byte(t[hi - 1])
        invariant
            lo <= hi <= n,
            n == t@.len(),
            forall|j: int| hi <= j < n ==> is_ws(t@[j]),
            lo == ws_prefix_len(t@),
        decreases hi,
    {
        hi = hi - 1;
    }
    proof {
        let inner = t@.skip(lo as int);
        lemma_ws_suffix_len(inner);
        assert forall|j: int| inner.len() - (n - hi) <= j < inner.len() implies is_ws(
            inner[j],
        ) by {
            assert(inner[j] == t@[j + lo]);
        }
        if hi > lo {
            assert(!is_ws(inner[hi - 1 - lo]));
        }
        assert(ws_suffix_len(inner) == n - hi);
        assert(trim_spec(t@) =~= t@.subrange(lo as int, hi as int));
    }
    if hi - lo != 5 {
        proof {
            assert(trim_spec(t@).len() != close_token().len());
        }
        return false;
    }
    let r = t[lo] == 99u8 && t[lo + 1] == 108u8 && t[lo + 2] == 111u8 && t[lo + 3] == 115u8 && t[lo
        + 4] == 101u8;
    proof {
        if r {
            assert(t@.subrange(lo as int, hi as int) =~= close_token());
        } else {
            assert(trim_spec(t@) != close_token()) by {
                if trim_spec(t@) == close_token() {
                    assert(forall|j: int|
                        0 <= j < 5 ==> t@.subrange(lo as int, hi as int)[j] == close_token()[j]);
                    assert(t@[lo as int] == 99u8 && t@[lo + 1] == 108u8 && t@[lo + 2] == 111u8
                        && t@[lo + 3] == 115u8 && t@[lo + 4] == 101u8);
                }
            }
        }
    }
    r
}

/// Is `b` ASCII whitespace?
fn is_ws_byte(b: u8) -> (r: bool)
    ensures
        r == is_ws(b),
{
    b == 32 || (9 <= b && b <= 13)
}

/// Classify one inbound text payload exactly as [`classify_spec`] does.
pub fn classify(t: &Vec<u8>) -> (c: Command)
    ensures
        c@ == classify_spec(t@),
{
    if check_whisper_prefix(t) {
        let n = t.len();
        let mut i: usize = 9;
        while i < n && t[i] != 32u8
            invariant
                9 <= i <= n,
                n == t@.len(),
                forall|j: int| 9 <= j < i ==> t@[j] != 32u8,
            decreases n - i,
        {
            i = i + 1;
        }
        proof {
            let rest = t@.skip(9);
            rest.index_of_first_ensures(32u8);
            assert forall|j: int| 0 <= j < i - 9 implies rest[j] != 32u8 by {
                assert(rest[j] == t@[j + 9]);
            }
            if i < n {
                assert(rest[i - 9] == 32u8);
                assert(rest.contains(32u8));
                assert(rest.index_of_first(32u8) == Some(i - 9 as int));
            } else {
                assert forall|j: int| 0 <= j < rest.len() implies rest[j] != 32u8 by {
                    assert(rest[j] == t@[j + 9]);
                }
                if rest.contains(32u8) {
                    let w = choose|w: int| 0 <= w < rest.len() && rest[w] == 32u8;
                    assert(rest[w] != 32u8);
                }
                assert(rest.index_of_first(32u8) is None);
            }
        }
        if i < n {
            let recipient = copy_range(t, 9, i);
            let body = copy_range(t, i + 1, n);
            proof {
                let rest = t@.skip(9);
                assert(recipient@ =~= rest.take(i - 9));
                assert(body@ =~= rest.skip(i - 9 + 1));
            }
            Command::Whisper { recipient, body }
        } else {
            Command::InvalidWhisper
        }
    } else if check_close_token(t) {
        Command::CloseRequest
    } else {
        Command::Broadcast
    }
}

} // verus!
