//! The wire protocol: whitespace-separated tokens, the first of which names
//! the command. Requests arrive as raw bytes; responses are UTF-8 text lines
//! terminated by a single newline.

use std::sync::Arc;
use vstd::prelude::*;
use vstd::string::StringExecFns;

verus! {

/// Whitespace bytes that separate tokens: tab, line feed, vertical tab, form
/// feed, carriage return, space.
pub open spec fn is_ws(b: u8) -> bool {
    b == 9 || b == 10 || b == 11 || b == 12 || b == 13 || b == 32
}

fn is_ws_byte(b: u8) -> (r: bool)
    ensures
        r == is_ws(b),
{
    b == 9 || b == 10 || b == 11 || b == 12 || b == 13 || b == 32
}

/// The tokens of `s` when a partial token `cur` is already in hand: maximal
/// runs of non-whitespace bytes, in order.
pub open spec fn tokens_from(s: Seq<u8>, cur: Seq<u8>) -> Seq<Seq<u8>>
    decreases s.len(),
{
    if s.len() == 0 {
        if cur.len() == 0 {
            Seq::empty()
        } else {
            seq![cur]
        }
    } else if is_ws(s[0]) {
        if cur.len() == 0 {
            tokens_from(s.drop_first(), Seq::empty())
        } else {
            seq![cur] + tokens_from(s.drop_first(), Seq::empty())
        }
    } else {
        tokens_from(s.drop_first(), cur.push(s[0]))
    }
}

/// The whitespace-separated tokens of a message.
pub open spec fn spec_tokens(s: Seq<u8>) -> Seq<Seq<u8>> {
    tokens_from(s, Seq::empty())
}

/// The byte sequences held by a sequence of byte vectors.
pub open spec fn views_of(ts: Seq<Vec<u8>>) -> Seq<Seq<u8>> {
    ts.map_values(|t: Vec<u8>| t@)
}

/// Split `msg` into its whitespace-separated tokens.
pub fn tokenize(msg: &[u8]) -> (r: Vec<Vec<u8>>)
    ensures
        views_of(r@) == spec_tokens(msg@),
{
    let mut tokens: Vec<Vec<u8>> = Vec::new();
    let mut cur: Vec<u8> = Vec::new();
    let mut i: usize = 0;
    proof {
        assert(msg@.skip(0) =~= msg@);
        assert(views_of(tokens@) + tokens_from(msg@, cur@) =~= tokens_from(msg@, cur@));
    }
    while i < msg.len()
        invariant
            i <= msg@.len(),
            spec_tokens(msg@) == views_of(tokens@) + tokens_from(msg@.skip(i as int), cur@),
        decreases msg@.len() - i,
    {
        let ghost s = msg@.skip(i as int);
        let ghost pre_tokens = tokens@;
        let ghost pre_cur = cur@;
        proof {
            assert(s[0] == msg@[i as int]);
            assert(s.drop_first() =~= msg@.skip(i as int + 1));
        }
        let b = msg[i];
        if is_ws_byte(b) {
            if cur.len() > 0 {
                tokens.push(cur);
                cur = Vec::new();
                proof {
                    assert(views_of(tokens@) =~= views_of(pre_tokens).push(pre_cur));
                    assert(views_of(pre_tokens) + tokens_from(s, pre_cur) =~= views_of(tokens@)
                        + tokens_from(s.drop_first(), cur@));
                }
            } else {
                proof {
                    assert(pre_cur =~= Seq::<u8>::empty());
                }
            }
        } else {
            cur.push(b);
            proof {
                assert(cur@ == pre_cur.push(s[0]));
            }
        }
        i = i + 1;
    }
    proof {
        assert(msg@.skip(i as int) =~= Seq::<u8>::empty());
    }
    if cur.len() > 0 {
        let ghost pre_tokens = tokens@;
        let ghost pre_cur = cur@;
        tokens.push(cur);
        proof {
            assert(views_of(tokens@) =~= views_of(pre_tokens).push(pre_cur));
            assert(views_of(pre_tokens) + tokens_from(Seq::<u8>::empty(), pre_cur) =~= views_of(
                tokens@,
            ));
        }
    } else {
        proof {
            assert(cur@ =~= Seq::<u8>::empty());
            assert(views_of(tokens@) + tokens_from(Seq::<u8>::empty(), cur@) =~= views_of(
                tokens@,
            ));
        }
    }
    tokens
}

/// Every byte of `s` is an ASCII decimal digit.
pub open spec fn all_digits(s: Seq<u8>) -> bool {
    forall|i: int| 0 <= i < s.len() ==> 48 <= #[trigger] s[i] <= 57
}

/// The number written by the digit string `s`, most significant digit first.
pub open spec fn digits_value(s: Seq<u8>) -> int
    decreases s.len(),
{
    if s.len() == 0 {
        0
    } else {
        digits_value(s.drop_last()) * 10 + (s.last() - 48)
    }
}

/// The digit part of a numeric token: everything after an optional leading
/// `+`.
pub open spec fn spec_digits_of(s: Seq<u8>) -> Seq<u8> {
    if s.len() >= 1 && s[0] == 43 {
        s.drop_first()
    } else {
        s
    }
}

/// What `str::parse::<u64>` makes of a token: an optional leading `+`, then
/// at least one decimal digit, and the value must fit in a `u64`; anything
/// else fails.
pub open spec fn spec_parse_u64(s: Seq<u8>) -> Option<u64> {
    let digits = spec_digits_of(s);
    if digits.len() >= 1 && all_digits(digits) && digits_value(digits) <= u64::MAX {
        Some(digits_value(digits) as u64)
    } else {
        None
    }
}

proof fn lemma_digits_value_nonneg(s: Seq<u8>)
    requires
        all_digits(s),
    ensures
        digits_value(s) >= 0,
    decreases s.len(),
{
    if s.len() > 0 {
        assert(all_digits(s.drop_last()));
        lemma_digits_value_nonneg(s.drop_last());
    }
}

proof fn lemma_digits_value_monotone(s: Seq<u8>, j: int)
    requires
        all_digits(s),
        0 <= j <= s.len(),
    ensures
        digits_value(s.take(j)) <= digits_value(s),
    decreases s.len() - j,
{
    if j == s.len() {
        assert(s.take(j) =~= s);
    } else {
        assert(s.take(j) =~= s.drop_last().take(j));
        assert(all_digits(s.drop_last()));
        lemma_digits_value_monotone(s.drop_last(), j);
        lemma_digits_value_nonneg(s.drop_last());
    }
}

/// Read a decimal `u64` from a token, exactly as `str::parse::<u64>` would:
/// absent on any malformed token or on overflow.
pub fn parse_u64(tok: &[u8]) -> (r: Option<u64>)
    ensures
        r == spec_parse_u64(tok@),
{
    let start: usize = if tok.len() >= 1 && tok[0] == 43 {
        1
    } else {
        0
    };
    let ghost digits = tok@.skip(start as int);
    proof {
        if tok@.len() >= 1 && tok@[0] == 43 {
            assert(digits =~= tok@.drop_first());
        } else {
            assert(digits =~= tok@);
        }
        assert(digits == spec_digits_of(tok@));
    }
    if tok.len() == start {
        return None;
    }
    let mut acc: u64 = 0;
    let mut j: usize = start;
    proof {
        assert(digits.take(0) =~= Seq::<u8>::empty());
    }
    while j < tok.len()
        invariant
            start <= j <= tok@.len(),
            start as int <= digits.len() + start == tok@.len(),
            digits == tok@.skip(start as int),
            digits == spec_digits_of(tok@),
            acc == digits_value(digits.take(j - start)),
            all_digits(digits.take(j - start)),
        decreases tok@.len() - j,
    {
        let ghost pre = digits.take(j - start);
        proof {
            assert(digits[j - start] == tok@[j as int]);
            assert(digits.take(j - start + 1).drop_last() =~= pre);
            assert(digits.take(j - start + 1).last() == digits[j - start]);
        }
        let b = tok[j];
        if b < 48 || b > 57 {
            proof {
                assert(!all_digits(digits));
            }
            return None;
        }
        proof {
            assert(all_digits(digits.take(j - start + 1)));
        }
        let d: u64 = (b - 48) as u64;
        let acc10 = match acc.checked_mul(10) {
            Some(x) => x,
            None => {
                proof {
                    if all_digits(digits) {
                        lemma_digits_value_monotone(digits, j - start + 1);
                    }
                }
                return None;
            },
        };
        acc = match acc10.checked_add(d) {
            Some(x) => x,
            None => {
                proof {
                    if all_digits(digits) {
                        lemma_digits_value_monotone(digits, j - start + 1);
                    }
                }
                return None;
            },
        };
        j = j + 1;
    }
    proof {
        assert(digits.take(j - start) =~= digits);
    }
    Some(acc)
}

/// What `String::from_utf8_lossy` returns for the given bytes: a pure
/// function of the bytes alone.
pub uninterp spec fn lossy_of(b: Seq<u8>) -> Seq<char>;

/// Every byte of `b` is plain ASCII.
pub open spec fn all_ascii(b: Seq<u8>) -> bool {
    forall|i: int| 0 <= i < b.len() ==> #[trigger] b[i] < 128
}

/// The characters spelled by a run of ASCII bytes.
pub open spec fn ascii_chars(b: Seq<u8>) -> Seq<char> {
    b.map_values(|x: u8| x as char)
}

/// Relies on `String::from_utf8_lossy`: the result depends on the bytes
/// alone, and valid UTF-8 — in particular plain ASCII — converts verbatim.
#[verifier::external_body]
pub fn lossy_string(b: &[u8]) -> (r: String)
    ensures
        r@ == lossy_of(b@),
        all_ascii(b@) ==> r@ == ascii_chars(b@),
{
    String::from_utf8_lossy(b).into_owned()
}

/// Relies on `<String as Clone>::clone`, reached through the `Arc`: the copy
/// holds the same characters as the shared string.
#[verifier::external_body]
pub fn shared_string(v: &Arc<String>) -> (r: String)
    ensures
        r@ == v@,
{
    (**v).clone()
}

/// A fully parsed request, ready to run against the cache.
pub enum Command {
    /// `GET <key>`: look the key up.
    Get { key: String },
    /// `PUT <key> <value> [ttl]` (alias `SET`): insert or replace; a
    /// malformed TTL token is silently treated as no TTL.
    Put { key: String, value: String, ttl: Option<u64> },
    /// `DEL <key>` (alias `RM`): remove the key.
    Remove { key: String },
    /// `GET`, `DEL` or `RM` without a key.
    MissingKey,
    /// `PUT` or `SET` without both a key and a value.
    MissingKeyValue,
    /// Any other first token.
    Unknown { name: String },
}

/// The model of a [`Command`].
pub ghost enum CommandView {
    Get { key: Seq<char> },
    Put { key: Seq<char>, value: Seq<char>, ttl: Option<u64> },
    Remove { key: Seq<char> },
    MissingKey,
    MissingKeyValue,
    Unknown { name: Seq<char> },
}

impl View for Command {
    type V = CommandView;

    open spec fn view(&self) -> CommandView {
        match self {
            Command::Get { key } => CommandView::Get { key: key@ },
            Command::Put { key, value, ttl } => CommandView::Put {
                key: key@,
                value: value@,
                ttl: *ttl,
            },
            Command::Remove { key } => CommandView::Remove { key: key@ },
            Command::MissingKey => CommandView::MissingKey,
            Command::MissingKeyValue => CommandView::MissingKeyValue,
            Command::Unknown { name } => CommandView::Unknown { name: name@ },
        }
    }
}

/// How a message parses: the first token picks the command, case-sensitively;
/// a message with no tokens parses to nothing (and gets no response).
pub open spec fn spec_parse(msg: Seq<u8>) -> Option<CommandView> {
    let toks = spec_tokens(msg);
    if toks.len() == 0 {
        None
    } else {
        let cmd = lossy_of(toks[0]);
        if cmd == "GET"@ {
            if toks.len() >= 2 {
                Some(CommandView::Get { key: lossy_of(toks[1]) })
            } else {
                Some(CommandView::MissingKey)
            }
        } else if cmd == "PUT"@ || cmd == "SET"@ {
            if toks.len() >= 3 {
                Some(
                    CommandView::Put {
                        key: lossy_of(toks[1]),
                        value: lossy_of(toks[2]),
                        ttl: if toks.len() >= 4 {
                            spec_parse_u64(toks[3])
                        } else {
                            None
                        },
                    },
                )
            } else {
                Some(CommandView::MissingKeyValue)
            }
        } else if cmd == "DEL"@ || cmd == "RM"@ {
            if toks.len() >= 2 {
                Some(CommandView::Remove { key: lossy_of(toks[1]) })
            } else {
                Some(CommandView::MissingKey)
            }
        } else {
            Some(CommandView::Unknown { name: cmd })
        }
    }
}

/// Parse one message into a command, or nothing for a message with no
/// tokens.
pub fn parse_command(msg: &[u8]) -> (r: Option<Command>)
    ensures
        match r {
            Some(c) => spec_parse(msg@) == Some(c@),
            None => spec_parse(msg@) is None,
        },
{
    let tokens = tokenize(msg);
    let ghost toks = spec_tokens(msg@);
    proof {
        assert(toks.len() == tokens@.len());
    }
    if tokens.len() == 0 {
        return None;
    }
    proof {
        assert(toks[0] == tokens@[0]@);
    }
    let cmd = lossy_string(tokens[0].as_slice());
    if cmd == String::from_str("GET") {
        if tokens.len() >= 2 {
            proof {
                assert(toks[1] == tokens@[1]@);
            }
            let key = lossy_string(tokens[1].as_slice());
            Some(Command::Get { key })
        } else {
            Some(Command::MissingKey)
        }
    } else if cmd == String::from_str("PUT") || cmd == String::from_str("SET") {
        if tokens.len() >= 3 {
            proof {
                assert(toks[1] == tokens@[1]@);
                assert(toks[2] == tokens@[2]@);
            }
            let key = lossy_string(tokens[1].as_slice());
            let value = lossy_string(tokens[2].as_slice());
            let ttl = if tokens.len() >= 4 {
                proof {
                    assert(toks[3] == tokens@[3]@);
                }
                parse_u64(tokens[3].as_slice())
            } else {
                None
            };
            Some(Command::Put { key, value, ttl })
        } else {
            Some(Command::MissingKeyValue)
        }
    } else if cmd == String::from_str("DEL") || cmd == String::from_str("RM") {
        if tokens.len() >= 2 {
            proof {
                assert(toks[1] == tokens@[1]@);
            }
            let key = lossy_string(tokens[1].as_slice());
            Some(Command::Remove { key })
        } else {
            Some(Command::MissingKey)
        }
    } else {
        Some(Command::Unknown { name: cmd })
    }
}

/// The response to a `GET`: the value's own line, or `NULL` when absent.
pub open spec fn spec_get_response(r: Option<Seq<char>>) -> Seq<char> {
    match r {
        Some(v) => v + "\n"@,
        None => "NULL\n"@,
    }
}

/// The response to a `DEL`/`RM`: the removed value's own line, or `<NULL>`
/// when absent.
pub open spec fn spec_remove_response(r: Option<Seq<char>>) -> Seq<char> {
    match r {
        Some(v) => v + "\n"@,
        None => "<NULL>\n"@,
    }
}

/// The response to an unknown command.
pub open spec fn spec_unknown_response(name: Seq<char>) -> Seq<char> {
    "Error: "@ + name + " is unknown\n"@
}

/// The model of what a `GET` or `DEL` handed back.
pub open spec fn view_of_result(r: Option<Arc<String>>) -> Option<Seq<char>> {
    match r {
        Some(v) => Some(v@),
        None => None,
    }
}

/// Format a `GET` result.
pub fn get_response(r: Option<Arc<String>>) -> (out: String)
    ensures
        out@ == spec_get_response(view_of_result(r)),
{
    match r {
        Some(v) => {
            let mut s = shared_string(&v);
            s.append("\n");
            s
        },
        None => String::from_str("NULL\n"),
    }
}

/// Format a `DEL`/`RM` result.
pub fn remove_response(r: Option<Arc<String>>) -> (out: String)
    ensures
        out@ == spec_remove_response(view_of_result(r)),
{
    match r {
        Some(v) => {
            let mut s = shared_string(&v);
            s.append("\n");
            s
        },
        None => String::from_str("<NULL>\n"),
    }
}

/// Format the answer to a successful `PUT`/`SET`.
pub fn ok_response() -> (out: String)
    ensures
        out@ == "OK\n"@,
{
    String::from_str("OK\n")
}

/// Format the complaint about a `GET`/`DEL`/`RM` with no key.
pub fn missing_key_response() -> (out: String)
    ensures
        out@ == "Error: Missing key\n"@,
{
    String::from_str("Error: Missing key\n")
}

/// Format the complaint about a `PUT`/`SET` without both key and value.
pub fn missing_key_value_response() -> (out: String)
    ensures
        out@ == "Error: Missing key & value\n"@,
{
    String::from_str("Error: Missing key & value\n")
}

/// Format the complaint about an unknown command.
pub fn unknown_response(name: &String) -> (out: String)
    ensures
        out@ == spec_unknown_response(name@),
{
    let mut s = String::from_str("Error: ");
    s.append(name.as_str());
    s.append(" is unknown\n");
    proof {
        assert(s@ =~= spec_unknown_response(name@));
    }
    s
}

} // verus!
