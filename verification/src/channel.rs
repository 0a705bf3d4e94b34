//! The remote command channel's sentinel protocol.
//!
//! The transport only surfaces a command's merged output stream, not its
//! exit status. Every command is therefore wrapped as
//! `<command> || echo <token>` with a token generated freshly per call: the
//! token appears in the collected stream exactly when the command failed,
//! and the reported failure text is the stream with every occurrence of the
//! token removed.

use vstd::prelude::*;
use vstd::string::StrSliceExecFns;
use vstd::string::StringExecFns;

verus! {

/// `needle` occurs in `hay` starting at position `i`.
pub open spec fn matches_at(hay: Seq<char>, needle: Seq<char>, i: int) -> bool {
    &&& 0 <= i
    &&& i + needle.len() <= hay.len()
    &&& hay.subrange(i, i + needle.len()) == needle
}

/// `needle` occurs somewhere in `hay`.
pub open spec fn contains_seq(hay: Seq<char>, needle: Seq<char>) -> bool {
    exists|i: int| matches_at(hay, needle, i)
}

/// `hay` with every occurrence of `needle` removed, scanning left to right.
pub open spec fn remove_all(hay: Seq<char>, needle: Seq<char>) -> Seq<char>
    recommends
        needle.len() > 0,
    decreases hay.len(),
{
    if needle.len() == 0 || hay.len() == 0 {
        hay
    } else if matches_at(hay, needle, 0) {
        remove_all(hay.skip(needle.len() as int), needle)
    } else {
        seq![hay[0]] + remove_all(hay.skip(1), needle)
    }
}

/// An occurrence of `needle` within `hay` at `i + j` is an occurrence within
/// the suffix `hay.skip(i)` at `j`, and conversely.
proof fn lemma_matches_at_skip(hay: Seq<char>, needle: Seq<char>, i: int, j: int)
    requires
        0 <= i <= hay.len(),
        0 <= j,
    ensures
        matches_at(hay, needle, i + j) == matches_at(hay.skip(i), needle, j),
{
    if j + needle.len() <= hay.len() - i {
        assert(hay.skip(i).subrange(j, j + needle.len()) =~= hay.subrange(
            i + j,
            i + j + needle.len(),
        ));
    }
}

/// Checks whether `needle` occurs in `hay` at position `i`.
fn match_at(hay: &str, needle: &str, i: usize, needle_len: usize) -> (b: bool)
    requires
        needle_len == needle@.len(),
        i + needle_len <= hay@.len(),
        hay@.len() <= usize::MAX,
    ensures
        b == matches_at(hay@, needle@, i as int),
{
    let mut j: usize = 0;
    while j < needle_len
        invariant
            0 <= j <= needle_len,
            needle_len == needle@.len(),
            i + needle_len <= hay@.len(),
            hay@.len() <= usize::MAX,
            forall|k: int| 0 <= k < j ==> hay@[i + k] == needle@[k],
        decreases needle_len - j,
    {
        if hay.get_char(i + j) != needle.get_char(j) {
            proof {
                if matches_at(hay@, needle@, i as int) {
                    assert(hay@.subrange(i as int, i + needle_len)[j as int] == needle@[j as int]);
                }
            }
            return false;
        }
        j += 1;
    }
    proof {
        assert(hay@.subrange(i as int, i + needle_len) =~= needle@);
    }
    true
}

/// Checks whether the token occurs anywhere in the collected output.
pub fn contains_token(hay: &str, token: &str) -> (b: bool)
    ensures
        b == contains_seq(hay@, token@),
{
    let hay_len = hay.unicode_len();
    let token_len = token.unicode_len();
    if token_len == 0 {
        proof {
            assert(hay@.subrange(0, 0) =~= token@);
            assert(matches_at(hay@, token@, 0));
        }
        return true;
    }
    if token_len > hay_len {
        proof {
            assert(forall|i: int| !matches_at(hay@, token@, i));
        }
        return false;
    }
    let mut i: usize = 0;
    while i <= hay_len - token_len
        invariant
            hay_len == hay@.len(),
            token_len == token@.len(),
            0 < token_len <= hay_len,
            0 <= i <= hay_len - token_len + 1,
            forall|k: int| 0 <= k < i ==> !matches_at(hay@, token@, k),
        decreases hay_len - token_len + 1 - i,
    {
        if match_at(hay, token, i, token_len) {
            proof {
                assert(matches_at(hay@, token@, i as int));
            }
            return true;
        }
        i += 1;
    }
    proof {
        assert(forall|k: int| k > hay_len - token_len ==> !matches_at(hay@, token@, k));
    }
    false
}

/// Returns the output with every occurrence of the token removed, scanning
/// left to right.
pub fn strip_token(hay: &str, token: &str) -> (r: String)
    requires
        token@.len() > 0,
    ensures
        r@ == remove_all(hay@, token@),
{
    let hay_len = hay.unicode_len();
    let token_len = token.unicode_len();
    let mut out = String::new();
    let mut i: usize = 0;
    proof {
        assert(hay@.skip(0) =~= hay@);
    }
    while i < hay_len
        invariant
            hay_len == hay@.len(),
            token_len == token@.len(),
            token_len > 0,
            0 <= i <= hay_len,
            out@ + remove_all(hay@.skip(i as int), token@) == remove_all(hay@, token@),
        decreases hay_len - i,
    {
        let ghost suffix = hay@.skip(i as int);
        if token_len <= hay_len && i <= hay_len - token_len && match_at(hay, token, i, token_len) {
            proof {
                lemma_matches_at_skip(hay@, token@, i as int, 0);
                assert(matches_at(suffix, token@, 0));
                assert(suffix.skip(token_len as int) =~= hay@.skip(i + token_len));
            }
            i += token_len;
        } else {
            proof {
                if i + token_len <= hay_len {
                    lemma_matches_at_skip(hay@, token@, i as int, 0);
                }
                assert(!matches_at(suffix, token@, 0));
                assert(suffix.skip(1) =~= hay@.skip(i + 1));
                assert(remove_all(suffix, token@) == seq![hay@[i as int]] + remove_all(
                    hay@.skip(i + 1),
                    token@,
                ));
            }
            let c = hay.substring_char(i, i + 1);
            out.append(c);
            proof {
                assert(c@ =~= seq![hay@[i as int]]);
                assert(out@ + remove_all(hay@.skip(i + 1), token@) =~= remove_all(hay@, token@));
            }
            i += 1;
        }
    }
    proof {
        assert(hay@.skip(hay_len as int) =~= Seq::<char>::empty());
        assert(out@ + remove_all(hay@.skip(hay_len as int), token@) =~= out@);
    }
    out
}

/// The chunks of a drained output stream reassembled into the one text the
/// command produced: their concatenation, with nothing inserted or dropped.
/// Chunk boundaries are transport frames, not content.
pub open spec fn spec_concat_chunks(chunks: Seq<Seq<char>>) -> Seq<char>
    decreases chunks.len(),
{
    if chunks.len() == 0 {
        Seq::empty()
    } else {
        spec_concat_chunks(chunks.drop_last()) + chunks.last()
    }
}

/// Reassembles the fully drained chunks of an output stream into the verbatim
/// text the classification inspects: the concatenation of the chunks, so a
/// token split across two frames is still found.
pub fn concat_chunks(chunks: &Vec<String>) -> (r: String)
    ensures
        r@ == spec_concat_chunks(crate::enumerate::views(chunks@)),
{
    let ghost all = crate::enumerate::views(chunks@);
    let mut r = String::new();
    let mut i: usize = 0;
    proof {
        assert(all.take(0) =~= Seq::<Seq<char>>::empty());
    }
    while i < chunks.len()
        invariant
            crate::enumerate::views(chunks@) == all,
            0 <= i <= chunks@.len(),
            r@ == spec_concat_chunks(all.take(i as int)),
        decreases chunks@.len() - i,
    {
        proof {
            assert(all[i as int] == chunks@[i as int]@);
            assert(all.take(i + 1).drop_last() =~= all.take(i as int));
            assert(all.take(i + 1).last() == all[i as int]);
        }
        r.append(chunks[i].as_str());
        i += 1;
    }
    proof {
        assert(all.take(chunks@.len() as int) =~= all);
    }
    r
}

/// A sentinel token's character set: the hyphenated form of a 128-bit random
/// identifier uses lowercase hexadecimal digits and hyphens only.
pub open spec fn is_token_char(c: char) -> bool {
    ||| '0' <= c <= '9'
    ||| 'a' <= c <= 'f'
    ||| c == '-'
}

/// Relies on `uuid::Uuid::new_v4` and the hyphenated `Display` form of
/// `uuid::Uuid`: a freshly drawn random 128-bit identifier rendered as 36
/// characters of lowercase hexadecimal digits and hyphens. The value is
/// random, so nothing relates one call's result to another's.
#[verifier::external_body]
fn fresh_token() -> (r: String)
    ensures
        r@.len() == 36,
        forall|i: int| 0 <= i < r@.len() ==> is_token_char(#[trigger] r@[i]),
{
    uuid::Uuid::new_v4().to_string()
}

/// The shell line the channel actually runs: the command, followed by an
/// `echo` of the token that fires only when the command exits non-zero.
pub open spec fn wrapped_command(cmd: Seq<char>, token: Seq<char>) -> Seq<char> {
    cmd + " || echo "@ + token
}

/// Builds the wrapped shell line for a command and a token.
pub fn wrap_command(cmd: &str, token: &str) -> (r: String)
    ensures
        r@ == wrapped_command(cmd@, token@),
{
    let mut r = cmd.to_owned();
    r.append(" || echo ");
    r.append(token);
    r
}

/// Generates a fresh sentinel token and the wrapped shell line carrying it.
/// A new token is drawn on every call, so no two commands ever share one.
pub fn prepare_command(cmd: &str) -> (r: (String, String))
    ensures
        r.0@.len() == 36,
        forall|i: int| 0 <= i < r.0@.len() ==> is_token_char(#[trigger] r.0@[i]),
        r.1@ == wrapped_command(cmd@, r.0@),
{
    let token = fresh_token();
    let wrapped = wrap_command(cmd, token.as_str());
    (token, wrapped)
}

/// The outcome of one remote command: either the full output stream,
/// verbatim, or the failure text derived from it.
pub enum ExecResult {
    Success { output: String },
    Failure { message: String },
}

/// Whether an output stream is classified as a success: the sentinel token
/// is absent from it.
pub open spec fn classified_success(output: Seq<char>, token: Seq<char>) -> bool {
    !contains_seq(output, token)
}

/// The failure text reported for a failed command: a fixed prefix, the
/// command, a line break, and the collected output with the token removed.
pub open spec fn failure_message(cmd: Seq<char>, cleaned: Seq<char>) -> Seq<char> {
    "Failed to execute command: "@ + cmd + "\n"@ + cleaned
}

/// Classifies one fully drained output stream: success returns the stream
/// verbatim; failure reports the stream with every occurrence of the token
/// removed, prefixed by the command that failed.
pub fn classify_output(cmd: &str, output: String, token: &str) -> (r: ExecResult)
    requires
        token@.len() > 0,
    ensures
        classified_success(output@, token@) ==> (r matches ExecResult::Success { output: out }
            && out@ == output@),
        !classified_success(output@, token@) ==> (r matches ExecResult::Failure { message }
            && message@ == failure_message(cmd@, remove_all(output@, token@))),
{
    if contains_token(output.as_str(), token) {
        let cleaned = strip_token(output.as_str(), token);
        let mut message = "Failed to execute command: ".to_owned();
        message.append(cmd);
        message.append("\n");
        message.append(cleaned.as_str());
        ExecResult::Failure { message }
    } else {
        ExecResult::Success { output }
    }
}

/// Classification tracks the shell's own exit status and never the output's
/// content: for every command whose real output does not contain the token,
/// the stream a succeeding wrapped command yields (the output alone) is
/// classified a success, and the stream a failing wrapped command yields
/// (the same output followed by the echoed token and a line break) is
/// classified a failure. The output is otherwise arbitrary: in particular it
/// may embed any other marker, such as an earlier call's token, without
/// changing the classification. That this call's own freshly drawn token is
/// indeed absent from the real output is what the token's randomness buys
/// and cannot be stated of the random source itself.
pub proof fn lemma_classification_tracks_exit_status(raw: Seq<char>, token: Seq<char>)
    requires
        token.len() > 0,
        !contains_seq(raw, token),
    ensures
        classified_success(raw, token),
        !classified_success(raw + token + "\n"@, token),
{
    let full = raw + token + "\n"@;
    assert(full.subrange(raw.len() as int, raw.len() + token.len() as int) =~= token);
    assert(matches_at(full, token, raw.len() as int));
}

} // verus!
