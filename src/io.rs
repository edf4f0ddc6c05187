//! The reader and writer roles that turn a line-oriented stream into typed
//! envelopes and back, and the framing decision made on each line read.
use vstd::prelude::*;

use crate::{Message, MessageView, NodeMessage};

verus! {

/// serde_json's parse and encode error, carried opaque inside the reader's
/// and writer's errors.
#[verifier::external_type_specification]
#[verifier::external_body]
pub struct ExJsonError(serde_json::Error);

/// std's I/O error, carried opaque inside the reader's and writer's errors.
#[verifier::external_type_specification]
#[verifier::external_body]
pub struct ExIoError(std::io::Error);

/// Why a reader produced no envelope.
#[derive(Debug)]
pub enum MessageReaderError {
    /// The producing side closed the stream.
    Closed,
    /// The operator asked the node to stop.
    Quit,
    Io(std::io::Error),
    Deserialization(serde_json::Error),
}

/// Reads messages from an input source such as stdin or a network socket.
///
/// `returned` models the reader by its history: every result it has handed
/// out, in order. Its default is one unspecified value, the same for every
/// reader; it is there so that readers written in plain Rust, which cannot
/// state a spec function, can implement the trait at all. For such a reader
/// the contract of `read` cannot hold and is not checked, so what is proved
/// of a node over it holds only of readers that state their history.
pub trait MessageReader<T: NodeMessage> {
    /// Every result this reader has returned, in order.
    closed spec fn returned(&self) -> Seq<Result<Message<T>, MessageReaderError>> {
        arbitrary()
    }

    /// Returns the next unread message from the reader. This method blocks
    /// until a message is available.
    fn read(&mut self) -> (r: Result<Message<T>, MessageReaderError>)
        ensures
            final(self).returned() == old(self).returned().push(r),
    ;
}

/// Why a writer could not emit an envelope.
#[derive(Debug)]
pub enum MessageWriterError {
    Io(std::io::Error),
    Serialization(serde_json::Error),
}

/// Emits each message as one unit of an output stream.
///
/// `sent` models the writer by its history: every message handed to it, with
/// what writing it returned. Its default has the same purpose and the same
/// reach as the default of `MessageReader::returned`.
pub trait MessageWriter<T: NodeMessage> {
    /// Every message handed to this writer, in order, with the result of
    /// writing it.
    closed spec fn sent(&self) -> Seq<(MessageView<T>, Result<(), MessageWriterError>)> {
        arbitrary()
    }

    fn write(&mut self, message: Message<T>) -> (r: Result<(), MessageWriterError>)
        ensures
            final(self).sent() == old(self).sent().push((message@, r)),
    ;
}

/// Whether `c` has the Unicode White_Space property, the whitespace of
/// `char::is_whitespace`.
pub open spec fn is_white_space(c: char) -> bool {
    ||| '\u{9}' <= c <= '\u{d}'
    ||| c == ' '
    ||| c == '\u{85}'
    ||| c == '\u{a0}'
    ||| c == '\u{1680}'
    ||| '\u{2000}' <= c <= '\u{200a}'
    ||| c == '\u{2028}'
    ||| c == '\u{2029}'
    ||| c == '\u{202f}'
    ||| c == '\u{205f}'
    ||| c == '\u{3000}'
}

/// `s` without its leading whitespace.
pub open spec fn trim_start(s: Seq<char>) -> Seq<char>
    decreases s.len(),
{
    if s.len() > 0 && is_white_space(s[0]) {
        trim_start(s.drop_first())
    } else {
        s
    }
}

/// `s` without its trailing whitespace.
pub open spec fn trim_end(s: Seq<char>) -> Seq<char>
    decreases s.len(),
{
    if s.len() > 0 && is_white_space(s.last()) {
        trim_end(s.drop_last())
    } else {
        s
    }
}

/// The text of a line without its leading and trailing whitespace.
pub open spec fn trimmed(s: Seq<char>) -> Seq<char> {
    trim_end(trim_start(s))
}

/// Relies on str::trim: it removes leading and trailing characters with the
/// Unicode White_Space property, the whitespace of `char::is_whitespace`.
#[verifier::external_body]
fn trim(s: &str) -> (r: &str)
    ensures
        r@ == trimmed(s@),
{
    s.trim()
}

/// The reserved words that ask a node to stop: `q` and `quit`.
pub open spec fn is_quit_word(s: Seq<char>) -> bool {
    s == seq!['q'] || s == seq!['q', 'u', 'i', 't']
}

/// Whether an already trimmed line is one of the reserved quit words.
pub fn is_quit_token(t: &str) -> (r: bool)
    ensures
        r == is_quit_word(t@),
{
    let n: usize = t.unicode_len();
    if n == 1 {
        let r = t.get_char(0) == 'q';
        proof {
            if r {
                assert(t@ =~= seq!['q']);
            }
        }
        r
    } else if n == 4 {
        let r = t.get_char(0) == 'q' && t.get_char(1) == 'u' && t.get_char(2) == 'i'
            && t.get_char(3) == 't';
        proof {
            if r {
                assert(t@ =~= seq!['q', 'u', 'i', 't']);
            }
            if is_quit_word(t@) {
                assert(t@[0] == seq!['q', 'u', 'i', 't'][0]);
                assert(t@[1] == seq!['q', 'u', 'i', 't'][1]);
                assert(t@[2] == seq!['q', 'u', 'i', 't'][2]);
                assert(t@[3] == seq!['q', 'u', 'i', 't'][3]);
            }
        }
        r
    } else {
        proof {
            lemma_quit_word_length(t@);
        }
        false
    }
}

proof fn lemma_quit_word_length(s: Seq<char>)
    requires
        s.len() != 1,
        s.len() != 4,
    ensures
        !is_quit_word(s),
{
    assert(seq!['q'].len() == 1);
    assert(seq!['q', 'u', 'i', 't'].len() == 4);
}

/// What a line read from the input stream signals by itself, before any
/// parsing: end of stream when nothing was read, a quit request when its
/// trimmed text is a quit word, and nothing otherwise.
pub open spec fn signal_of_line(bytes_read: usize, line: Seq<char>) -> Option<MessageReaderError> {
    if bytes_read == 0 {
        Some(MessageReaderError::Closed)
    } else if is_quit_word(trimmed(line)) {
        Some(MessageReaderError::Quit)
    } else {
        None
    }
}

/// Frames one line that a reader took from its stream: `Closed` when the
/// read returned no bytes, `Quit` for a quit word, `None` when the line is to
/// be parsed as an envelope.
pub fn line_signal(bytes_read: usize, line: &str) -> (r: Option<MessageReaderError>)
    ensures
        r == signal_of_line(bytes_read, line@),
{
    if bytes_read == 0 {
        return Some(MessageReaderError::Closed);
    }
    let t = trim(line);
    if is_quit_token(t) {
        Some(MessageReaderError::Quit)
    } else {
        None
    }
}

} // verus!
