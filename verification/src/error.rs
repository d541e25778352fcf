//! The error every fallible operation of the library returns: a kind and a
//! short reason.
//!
//! An error is shown as its kind, a colon and its reason. That text is what
//! travels in a response of the enclave, and the client reads the error back
//! from it.

use vstd::prelude::*;
use vstd::string::*;
use vstd::utf8::{encode_utf8, is_ascii_chars, is_ascii_chars_encode_utf8};

verus! {

/// What went wrong, broadly.
#[derive(PartialEq, Eq, Clone, Copy, Debug)]
pub enum ErrorKind {
    /// Framing, the bound on a frame, a message that cannot be read.
    Protocol,
    /// A seed that cannot be unsealed, an invalid seed or signature, a key
    /// that cannot be derived, an enclave that is configured otherwise than
    /// at sealing time.
    Crypto,
    /// A connection, a read or a write, a timeout, a channel whose peer is
    /// gone.
    Transport,
    /// The refusal to overwrite a sealed key; a text that is no valid
    /// encoding.
    Policy,
    /// The request stream has ended: the serve loop should exit quietly.
    Control,
}

impl ErrorKind {
    /// The name under which a kind is shown.
    pub open spec fn name(self) -> Seq<char> {
        match self {
            ErrorKind::Protocol => "protocol"@,
            ErrorKind::Crypto => "crypto"@,
            ErrorKind::Transport => "transport"@,
            ErrorKind::Policy => "policy"@,
            ErrorKind::Control => "control"@,
        }
    }

    /// The name under which a kind is shown.
    pub fn as_str(&self) -> (name: &'static str)
        ensures
            name@ == self.name(),
    {
        match self {
            ErrorKind::Protocol => "protocol",
            ErrorKind::Crypto => "crypto",
            ErrorKind::Transport => "transport",
            ErrorKind::Policy => "policy",
            ErrorKind::Control => "control",
        }
    }
}

/// A failure with a short human-readable reason. The reason never holds
/// secret material.
#[derive(PartialEq, Eq, Clone, Debug)]
pub struct Error {
    pub what: String,
    pub kind: ErrorKind,
}

/// Whether `e` is the error of kind `kind` with the reason `what`.
pub open spec fn is_error(e: Error, kind: ErrorKind, what: Seq<char>) -> bool {
    e.kind == kind && e.what@ == what
}

/// How an error is shown: its kind, a colon and a blank, its reason.
pub open spec fn shown(kind: ErrorKind, what: Seq<char>) -> Seq<char> {
    kind.name() + ": "@ + what
}

/// Whether `text` begins with `prefix`.
pub open spec fn begins_with(text: Seq<char>, prefix: Seq<char>) -> bool {
    prefix.len() <= text.len() && text.subrange(0, prefix.len() as int) == prefix
}

/// Whether `text` shows an error of kind `kind`.
pub open spec fn shows(text: Seq<char>, kind: ErrorKind) -> bool {
    begins_with(text, kind.name() + ": "@)
}

/// The kind of the error that `text` shows. A text that shows no kind is
/// itself the reason of a protocol error.
pub open spec fn shown_kind(text: Seq<char>) -> ErrorKind {
    if shows(text, ErrorKind::Protocol) {
        ErrorKind::Protocol
    } else if shows(text, ErrorKind::Crypto) {
        ErrorKind::Crypto
    } else if shows(text, ErrorKind::Transport) {
        ErrorKind::Transport
    } else if shows(text, ErrorKind::Policy) {
        ErrorKind::Policy
    } else if shows(text, ErrorKind::Control) {
        ErrorKind::Control
    } else {
        ErrorKind::Protocol
    }
}

/// The reason of the error that `text` shows.
pub open spec fn shown_what(text: Seq<char>) -> Seq<char> {
    if shows(text, shown_kind(text)) {
        text.subrange(shown_kind(text).name().len() as int + 2, text.len() as int)
    } else {
        text
    }
}

/// The names of the kinds, letter by letter.
proof fn lemma_names()
    ensures
        "protocol"@ == seq!['p', 'r', 'o', 't', 'o', 'c', 'o', 'l'],
        "crypto"@ == seq!['c', 'r', 'y', 'p', 't', 'o'],
        "transport"@ == seq!['t', 'r', 'a', 'n', 's', 'p', 'o', 'r', 't'],
        "policy"@ == seq!['p', 'o', 'l', 'i', 'c', 'y'],
        "control"@ == seq!['c', 'o', 'n', 't', 'r', 'o', 'l'],
        ": "@ == seq![':', ' '],
{
    reveal_strlit("protocol");
    reveal_strlit("crypto");
    reveal_strlit("transport");
    reveal_strlit("policy");
    reveal_strlit("control");
    reveal_strlit(": ");
    assert("protocol"@ =~= seq!['p', 'r', 'o', 't', 'o', 'c', 'o', 'l']);
    assert("crypto"@ =~= seq!['c', 'r', 'y', 'p', 't', 'o']);
    assert("transport"@ =~= seq!['t', 'r', 'a', 'n', 's', 'p', 'o', 'r', 't']);
    assert("policy"@ =~= seq!['p', 'o', 'l', 'i', 'c', 'y']);
    assert("control"@ =~= seq!['c', 'o', 'n', 't', 'r', 'o', 'l']);
    assert(": "@ =~= seq![':', ' ']);
}

/// A text that begins with a prefix has the characters of the prefix.
proof fn lemma_begins_with(text: Seq<char>, prefix: Seq<char>, i: int)
    requires
        begins_with(text, prefix),
        0 <= i < prefix.len(),
    ensures
        text[i] == prefix[i],
{
    assert(text.subrange(0, prefix.len() as int)[i] == text[i]);
}

/// What is shown of an error shows its kind and no other, and its reason: an
/// error is read back from the text that shows it.
pub proof fn lemma_shown_is_read_back(kind: ErrorKind, what: Seq<char>)
    ensures
        shown_kind(shown(kind, what)) == kind,
        shown_what(shown(kind, what)) == what,
{
    lemma_names();
    let text = shown(kind, what);
    let own = kind.name() + ": "@;
    assert(text.subrange(0, own.len() as int) =~= own);
    assert(shows(text, kind));
    assert(text.subrange(own.len() as int, text.len() as int) =~= what);
    // two kinds differ in one of the first two letters of their names
    assert forall|other: ErrorKind| other != kind implies !shows(text, other) by {
        if shows(text, other) {
            let theirs = other.name() + ": "@;
            lemma_begins_with(text, theirs, 0);
            lemma_begins_with(text, theirs, 1);
            assert(text[0] == own[0]);
            assert(text[1] == own[1]);
            assert(false);
        }
    }
}

/// Whether a reason is plain and short: made of ASCII characters, and of no
/// more than a hundred of them.
pub open spec fn is_short_reason(what: Seq<char>) -> bool {
    is_ascii_chars(what) && what.len() <= 100
}

/// An error with a plain and short reason is shown in no more than 111
/// bytes: what is shown is ASCII, one byte for each character.
pub proof fn lemma_shown_is_short(kind: ErrorKind, what: Seq<char>)
    requires
        is_short_reason(what),
    ensures
        is_ascii_chars(shown(kind, what)),
        encode_utf8(shown(kind, what)).len() == shown(kind, what).len(),
        shown(kind, what).len() <= 111,
{
    lemma_names();
    let head = kind.name() + ": "@;
    assert(head.len() <= 11);
    assert forall|i: int| 0 <= i < head.len() implies '\0' <= #[trigger] head[i] <= '\u{7f}' by {
        if i < kind.name().len() {
            assert(head[i] == kind.name()[i]);
        } else {
            assert(head[i] == ": "@[i - kind.name().len()]);
        }
    }
    let text = shown(kind, what);
    assert forall|i: int| 0 <= i < text.len() implies '\0' <= #[trigger] text[i] <= '\u{7f}' by {
        if i < head.len() {
            assert(text[i] == head[i]);
        } else {
            assert(text[i] == what[i - head.len()]);
        }
    }
    is_ascii_chars_encode_utf8(text);
}

impl Error {
    /// The failure of kind `kind` with the reason `e`.
    pub fn new(kind: ErrorKind, e: &str) -> (err: Self)
        ensures
            is_error(err, kind, e@),
    {
        Error { what: e.to_owned(), kind }
    }

    /// A failure of the protocol.
    pub fn protocol(e: &str) -> (err: Self)
        ensures
            is_error(err, ErrorKind::Protocol, e@),
    {
        Error::new(ErrorKind::Protocol, e)
    }

    /// A failure of the cryptography.
    pub fn crypto(e: &str) -> (err: Self)
        ensures
            is_error(err, ErrorKind::Crypto, e@),
    {
        Error::new(ErrorKind::Crypto, e)
    }

    /// A failure of the transport.
    pub fn transport(e: &str) -> (err: Self)
        ensures
            is_error(err, ErrorKind::Transport, e@),
    {
        Error::new(ErrorKind::Transport, e)
    }

    /// A refusal by policy.
    pub fn policy(e: &str) -> (err: Self)
        ensures
            is_error(err, ErrorKind::Policy, e@),
    {
        Error::new(ErrorKind::Policy, e)
    }

    /// The signal that the request stream has ended.
    pub fn stop() -> (err: Self)
        ensures
            is_error(err, ErrorKind::Control, Seq::<char>::empty()),
    {
        Error { what: String::new(), kind: ErrorKind::Control }
    }

    /// Whether this is the end-of-stream signal.
    pub fn is_stop(&self) -> (b: bool)
        ensures
            b == (self.kind == ErrorKind::Control),
    {
        match self.kind {
            ErrorKind::Control => true,
            _ => false,
        }
    }

    /// The error as it is shown to a user and sent to a peer: its kind, a
    /// colon and a blank, its reason.
    pub fn to_string(&self) -> (text: String)
        ensures
            text@ == shown(self.kind, self.what@),
    {
        let text = String::from_str(self.kind.as_str());
        let text = text.concat(": ");
        text.concat(self.what.as_str())
    }

    /// The error that `text` shows: the inverse of `to_string`. A text that
    /// shows no kind is taken for the reason of a protocol error.
    pub fn from_shown(text: &str) -> (err: Self)
        ensures
            is_error(err, shown_kind(text@), shown_what(text@)),
    {
        let len = text.unicode_len();
        let kinds = [
            ErrorKind::Protocol,
            ErrorKind::Crypto,
            ErrorKind::Transport,
            ErrorKind::Policy,
            ErrorKind::Control,
        ];
        let mut i: usize = 0;
        while i < 5
            invariant
                i <= 5,
                len == text@.len(),
                kinds@ == seq![
                    ErrorKind::Protocol,
                    ErrorKind::Crypto,
                    ErrorKind::Transport,
                    ErrorKind::Policy,
                    ErrorKind::Control,
                ],
                forall|j: int| 0 <= j < i ==> !shows(text@, #[trigger] kinds@[j]),
            decreases 5 - i,
        {
            let kind = kinds[i];
            let prefix = String::from_str(kind.as_str()).concat(": ");
            let n = prefix.as_str().unicode_len();
            if begins(text, prefix.as_str()) {
                proof {
                    reveal_strlit(": ");
                    assert(shows(text@, kind));
                    assert(i > 0 ==> !shows(text@, kinds@[0]));
                    assert(i > 1 ==> !shows(text@, kinds@[1]));
                    assert(i > 2 ==> !shows(text@, kinds@[2]));
                    assert(i > 3 ==> !shows(text@, kinds@[3]));
                    assert(shown_kind(text@) == kind);
                }
                let what = text.substring_char(n, len);
                return Error::new(kind, what);
            }
            i += 1;
        }
        assert(!shows(text@, kinds@[0]));
        assert(!shows(text@, kinds@[1]));
        assert(!shows(text@, kinds@[2]));
        assert(!shows(text@, kinds@[3]));
        assert(!shows(text@, kinds@[4]));
        Error::new(ErrorKind::Protocol, text)
    }
}

/// Whether `text` begins with `prefix`.
fn begins(text: &str, prefix: &str) -> (b: bool)
    ensures
        b == begins_with(text@, prefix@),
{
    let n = prefix.unicode_len();
    if n > text.unicode_len() {
        return false;
    }
    let mut i: usize = 0;
    while i < n
        invariant
            i <= n,
            n == prefix@.len(),
            n <= text@.len(),
            forall|j: int| 0 <= j < i ==> text@[j] == prefix@[j],
        decreases n - i,
    {
        if text.get_char(i) != prefix.get_char(i) {
            assert(text@.subrange(0, n as int)[i as int] != prefix@[i as int]);
            return false;
        }
        i += 1;
    }
    assert(text@.subrange(0, n as int) =~= prefix@);
    true
}

} // verus!
