//! The receipt file's document format: a JSON object of string fields.
//!
//! A record is rendered as `{"receipt":…,"device_id":…,"activation_id":…,
//! "project_id":…}` with full string escaping; reading is tolerant: any
//! valid JSON document is accepted, unknown keys and non-string values
//! (nested ones included) are skipped, a missing or non-string field falls
//! back to its default, and a document that is not an object at all reads
//! as a record of defaults. Rendering and reading are both verified, and
//! reading a rendered record is proved to give the record back.

use vstd::prelude::*;

use crate::errors::StorageError;
use crate::outside::char_from_code;
use crate::outside::chars_of;
use crate::outside::string_of;
use crate::storage::ReceiptRecord;
use crate::storage::RecordView;
use vstd::slice::slice_subrange;

verus! {

broadcast use vstd::string::group_string_axioms, vstd::slice::group_slice_axioms;

/// JSON whitespace.
pub open spec fn is_ws(c: char) -> bool {
    c == ' ' || c == '\t' || c == '\n' || c == '\r'
}

/// A character that is rendered into a JSON string as itself.
pub open spec fn normal_char(c: char) -> bool {
    c != '"' && c != '\\' && !(0 <= c as int && (c as int) < 32)
}

/// The lowercase hex digit of a value below 16.
pub open spec fn hex_digit(v: int) -> char {
    if v == 0 {
        '0'
    } else if v == 1 {
        '1'
    } else if v == 2 {
        '2'
    } else if v == 3 {
        '3'
    } else if v == 4 {
        '4'
    } else if v == 5 {
        '5'
    } else if v == 6 {
        '6'
    } else if v == 7 {
        '7'
    } else if v == 8 {
        '8'
    } else if v == 9 {
        '9'
    } else if v == 10 {
        'a'
    } else if v == 11 {
        'b'
    } else if v == 12 {
        'c'
    } else if v == 13 {
        'd'
    } else if v == 14 {
        'e'
    } else {
        'f'
    }
}

/// The value of a hex digit, either case.
pub open spec fn hex_val(c: char) -> Option<int> {
    if '0' <= c && c <= '9' {
        Some(c as int - '0' as int)
    } else if 'a' <= c && c <= 'f' {
        Some(c as int - 'a' as int + 10)
    } else if 'A' <= c && c <= 'F' {
        Some(c as int - 'A' as int + 10)
    } else {
        None
    }
}

/// The value of four hex digits starting at `i`, most significant first.
pub open spec fn hex4(s: Seq<char>, i: int) -> Option<int>
    recommends
        0 <= i && i + 4 <= s.len(),
{
    match (hex_val(s[i]), hex_val(s[i + 1]), hex_val(s[i + 2]), hex_val(s[i + 3])) {
        (Some(h1), Some(h2), Some(h3), Some(h4)) => Some(h1 * 4096 + h2 * 256 + h3 * 16 + h4),
        _ => None,
    }
}

/// How one character is rendered inside a JSON string.
pub open spec fn escape_char(c: char) -> Seq<char> {
    if c == '"' {
        seq!['\\', '"']
    } else if c == '\\' {
        seq!['\\', '\\']
    } else if 0 <= c as int && (c as int) < 32 {
        seq!['\\', 'u', '0', '0', hex_digit((c as int) / 16), hex_digit((c as int) % 16)]
    } else {
        seq![c]
    }
}

/// How a whole string is rendered inside a JSON string.
pub open spec fn escape_str(s: Seq<char>) -> Seq<char>
    decreases s.len(),
{
    if s.len() == 0 {
        Seq::empty()
    } else {
        escape_char(s[0]) + escape_str(s.drop_first())
    }
}

/// A rendered JSON string, quotes included.
pub open spec fn quote(s: Seq<char>) -> Seq<char> {
    seq!['"'] + escape_str(s) + seq!['"']
}

/// A rendered optional string: a JSON string, or `null`.
pub open spec fn opt_json(o: Option<Seq<char>>) -> Seq<char> {
    match o {
        Some(s) => quote(s),
        None => "null"@,
    }
}

/// One rendered object member.
pub open spec fn member_text(key: Seq<char>, v: Option<Seq<char>>) -> Seq<char> {
    seq!['"'] + key + seq!['"'] + seq![':'] + opt_json(v)
}

/// The whole rendered receipt document.
pub open spec fn record_doc(r: RecordView) -> Seq<char> {
    seq!['{'] + member_text("receipt"@, Some(r.receipt)) + seq![','] + member_text(
        "device_id"@,
        Some(r.device_id),
    ) + seq![','] + member_text("activation_id"@, r.activation_id) + seq![','] + member_text(
        "project_id"@,
        r.project_id,
    ) + seq!['}']
}

/// The input with its leading whitespace dropped.
pub open spec fn spec_ws(s: Seq<char>) -> Seq<char>
    decreases s.len(),
{
    if s.len() > 0 && is_ws(s[0]) {
        spec_ws(s.drop_first())
    } else {
        s
    }
}

/// The one-character escapes a string may use.
pub open spec fn unescape_short(c: char) -> Option<char> {
    if c == '"' {
        Some('"')
    } else if c == '\\' {
        Some('\\')
    } else if c == '/' {
        Some('/')
    } else if c == 'n' {
        Some('\n')
    } else if c == 't' {
        Some('\t')
    } else if c == 'r' {
        Some('\r')
    } else if c == 'b' {
        Some('\u{8}')
    } else if c == 'f' {
        Some('\u{c}')
    } else {
        None
    }
}

/// Reads a JSON string from after its opening quote: the decoded content and
/// the input after the closing quote, or `None` where the string never
/// closes, uses an escape this reader does not know, holds a raw control
/// character, or holds an unpaired `\u` surrogate.
pub open spec fn spec_string_body(s: Seq<char>) -> Option<(Seq<char>, Seq<char>)>
    decreases s.len(),
{
    if s.len() == 0 {
        None
    } else if s[0] == '"' {
        Some((Seq::empty(), s.drop_first()))
    } else if s[0] == '\\' {
        if s.len() < 2 {
            None
        } else if s[1] == 'u' {
            if s.len() < 6 {
                None
            } else {
                match hex4(s, 2) {
                    None => None,
                    Some(v1) => if 0xD800 <= v1 < 0xDC00 {
                        if s.len() < 12 || s[6] != '\\' || s[7] != 'u' {
                            None
                        } else {
                            match hex4(s, 8) {
                                None => None,
                                Some(v2) => if 0xDC00 <= v2 < 0xE000 {
                                    let code = 0x10000 + (v1 - 0xD800) * 0x400 + (v2 - 0xDC00);
                                    match spec_string_body(s.skip(12)) {
                                        Some((body, rest)) => Some(
                                            (seq![(code as char)] + body, rest),
                                        ),
                                        None => None,
                                    }
                                } else {
                                    None
                                },
                            }
                        }
                    } else if 0xDC00 <= v1 < 0xE000 {
                        None
                    } else {
                        match spec_string_body(s.skip(6)) {
                            Some((body, rest)) => Some((seq![(v1 as char)] + body, rest)),
                            None => None,
                        }
                    },
                }
            }
        } else {
            match unescape_short(s[1]) {
                Some(c) => match spec_string_body(s.skip(2)) {
                    Some((body, rest)) => Some((seq![c] + body, rest)),
                    None => None,
                },
                None => None,
            }
        }
    } else if 0 <= s[0] as int && (s[0] as int) < 32 {
        None
    } else {
        match spec_string_body(s.drop_first()) {
            Some((body, rest)) => Some((seq![s[0]] + body, rest)),
            None => None,
        }
    }
}

/// A character that may appear in an unquoted atom (`null`, booleans,
/// numbers).
pub open spec fn is_atom_char(c: char) -> bool {
    ('0' <= c && c <= '9') || ('a' <= c && c <= 'z') || ('A' <= c && c <= 'Z') || c == '+' || c
        == '-' || c == '.'
}

/// The maximal leading run of atom characters, and what follows it.
pub open spec fn spec_atom_run(s: Seq<char>) -> (Seq<char>, Seq<char>)
    decreases s.len(),
{
    if s.len() > 0 && is_atom_char(s[0]) {
        let (run, rest) = spec_atom_run(s.drop_first());
        (seq![s[0]] + run, rest)
    } else {
        (Seq::empty(), s)
    }
}

/// A decimal digit.
pub open spec fn is_digit(c: char) -> bool {
    '0' <= c && c <= '9'
}

/// The first index at or after `i` that does not hold a digit.
pub open spec fn digits_end(s: Seq<char>, i: int) -> int
    decreases s.len() - i,
{
    if i < 0 || i >= s.len() || !is_digit(s[i]) {
        i
    } else {
        digits_end(s, i + 1)
    }
}

/// JSON's number grammar: an optional minus; `0` or a run of digits not led
/// by `0`; an optional fraction and an optional exponent, each with at least
/// one digit.
pub open spec fn is_json_number(a: Seq<char>) -> bool {
    let i0: int = if a.len() > 0 && a[0] == '-' {
        1
    } else {
        0
    };
    if i0 >= a.len() || !is_digit(a[i0]) {
        false
    } else {
        let i1 = if a[i0] == '0' {
            i0 + 1
        } else {
            digits_end(a, i0)
        };
        let i2 = if i1 < a.len() && a[i1] == '.' {
            if digits_end(a, i1 + 1) == i1 + 1 {
                -1
            } else {
                digits_end(a, i1 + 1)
            }
        } else {
            i1
        };
        if i2 < 0 {
            false
        } else {
            let i3 = if i2 < a.len() && (a[i2] == 'e' || a[i2] == 'E') {
                let k: int = if i2 + 1 < a.len() && (a[i2 + 1] == '+' || a[i2 + 1] == '-') {
                    i2 + 2
                } else {
                    i2 + 1
                };
                if digits_end(a, k) == k {
                    -1
                } else {
                    digits_end(a, k)
                }
            } else {
                i2
            };
            i3 == a.len()
        }
    }
}

/// An unquoted atom this reader accepts: the three JSON words, or a number.
pub open spec fn atom_ok(a: Seq<char>) -> bool {
    a == "null"@ || a == "true"@ || a == "false"@ || is_json_number(a)
}

/// Scans a JSON string from after its opening quote without decoding it:
/// the input after the closing quote. It holds strings to the same grammar
/// as the decoding reader, `\u` surrogate pairing included.
pub open spec fn spec_skip_string(s: Seq<char>) -> Option<Seq<char>>
    decreases s.len(),
{
    if s.len() == 0 {
        None
    } else if s[0] == '"' {
        Some(s.drop_first())
    } else if s[0] == '\\' {
        if s.len() < 2 {
            None
        } else if s[1] == 'u' {
            if s.len() < 6 {
                None
            } else {
                match hex4(s, 2) {
                    None => None,
                    Some(v1) => if 0xD800 <= v1 < 0xDC00 {
                        if s.len() < 12 || s[6] != '\\' || s[7] != 'u' {
                            None
                        } else {
                            match hex4(s, 8) {
                                None => None,
                                Some(v2) => if 0xDC00 <= v2 < 0xE000 {
                                    spec_skip_string(s.skip(12))
                                } else {
                                    None
                                },
                            }
                        }
                    } else if 0xDC00 <= v1 < 0xE000 {
                        None
                    } else {
                        spec_skip_string(s.skip(6))
                    },
                }
            }
        } else {
            match unescape_short(s[1]) {
                Some(_) => spec_skip_string(s.skip(2)),
                None => None,
            }
        }
    } else if 0 <= s[0] as int && (s[0] as int) < 32 {
        None
    } else {
        spec_skip_string(s.drop_first())
    }
}

/// Skips one JSON value of any kind: the input after it. `fuel` only bounds
/// the recursion; one unit is spent per member or element.
pub open spec fn spec_skip_value(s: Seq<char>, fuel: nat) -> Option<Seq<char>>
    decreases fuel, 3int,
{
    if s.len() == 0 {
        None
    } else if s[0] == '"' {
        spec_skip_string(s.drop_first())
    } else if s[0] == '{' {
        spec_skip_object_body(s.drop_first(), fuel)
    } else if s[0] == '[' {
        spec_skip_array_body(s.drop_first(), fuel)
    } else {
        let (run, rest) = spec_atom_run(s);
        if atom_ok(run) {
            Some(rest)
        } else {
            None
        }
    }
}

/// Skips an object from after its opening brace.
pub open spec fn spec_skip_object_body(s: Seq<char>, fuel: nat) -> Option<Seq<char>>
    decreases fuel, 2int,
{
    let s1 = spec_ws(s);
    if s1.len() > 0 && s1[0] == '}' {
        Some(s1.drop_first())
    } else {
        spec_skip_members(s1, fuel)
    }
}

/// Skips one or more `key: value` members and the closing brace.
pub open spec fn spec_skip_members(s: Seq<char>, fuel: nat) -> Option<Seq<char>>
    decreases fuel, 1int,
{
    if fuel == 0 {
        None
    } else {
        let s1 = spec_ws(s);
        if s1.len() == 0 || s1[0] != '"' {
            None
        } else {
            match spec_skip_string(s1.drop_first()) {
                None => None,
                Some(s2) => {
                    let s3 = spec_ws(s2);
                    if s3.len() == 0 || s3[0] != ':' {
                        None
                    } else {
                        match spec_skip_value(spec_ws(s3.drop_first()), (fuel - 1) as nat) {
                            None => None,
                            Some(s5) => {
                                let s6 = spec_ws(s5);
                                if s6.len() == 0 {
                                    None
                                } else if s6[0] == ',' {
                                    spec_skip_members(s6.drop_first(), (fuel - 1) as nat)
                                } else if s6[0] == '}' {
                                    Some(s6.drop_first())
                                } else {
                                    None
                                }
                            },
                        }
                    }
                },
            }
        }
    }
}

/// Skips an array from after its opening bracket.
pub open spec fn spec_skip_array_body(s: Seq<char>, fuel: nat) -> Option<Seq<char>>
    decreases fuel, 2int,
{
    let s1 = spec_ws(s);
    if s1.len() > 0 && s1[0] == ']' {
        Some(s1.drop_first())
    } else {
        spec_skip_elems(s1, fuel)
    }
}

/// Skips one or more array elements and the closing bracket.
pub open spec fn spec_skip_elems(s: Seq<char>, fuel: nat) -> Option<Seq<char>>
    decreases fuel, 1int,
{
    if fuel == 0 {
        None
    } else {
        match spec_skip_value(spec_ws(s), (fuel - 1) as nat) {
            None => None,
            Some(s2) => {
                let s3 = spec_ws(s2);
                if s3.len() == 0 {
                    None
                } else if s3[0] == ',' {
                    spec_skip_elems(s3.drop_first(), (fuel - 1) as nat)
                } else if s3[0] == ']' {
                    Some(s3.drop_first())
                } else {
                    None
                }
            },
        }
    }
}

/// Reads one member value: `Some(content)` for a string, `None` for any
/// other JSON value, which is skipped, not interpreted.
pub open spec fn spec_value(s: Seq<char>, fuel: nat) -> Option<(Option<Seq<char>>, Seq<char>)> {
    if s.len() == 0 {
        None
    } else if s[0] == '"' {
        match spec_string_body(s.drop_first()) {
            Some((body, rest)) => Some((Some(body), rest)),
            None => None,
        }
    } else {
        match spec_skip_value(s, fuel) {
            Some(rest) => Some((None, rest)),
            None => None,
        }
    }
}

/// The four fields as read from a document; a field is `Some` only where its
/// key was last seen with a string value.
#[verifier::ext_equal]
pub struct DocFields {
    pub receipt: Option<Seq<char>>,
    pub device_id: Option<Seq<char>>,
    pub activation_id: Option<Seq<char>>,
    pub project_id: Option<Seq<char>>,
}

/// No field seen yet.
pub open spec fn empty_fields() -> DocFields {
    DocFields { receipt: None, device_id: None, activation_id: None, project_id: None }
}

/// Records one member: a known key takes the value (the last occurrence
/// wins), an unknown key is ignored.
pub open spec fn set_field(f: DocFields, key: Seq<char>, v: Option<Seq<char>>) -> DocFields {
    if key == "receipt"@ {
        DocFields { receipt: v, ..f }
    } else if key == "device_id"@ {
        DocFields { device_id: v, ..f }
    } else if key == "activation_id"@ {
        DocFields { activation_id: v, ..f }
    } else if key == "project_id"@ {
        DocFields { project_id: v, ..f }
    } else {
        f
    }
}

/// Reads the members of an object from after its opening brace (at least
/// one), folding them into `f`; yields the fields and the input after the
/// closing brace. `fuel` only bounds the recursion; one unit is spent per
/// member.
pub open spec fn spec_members(s: Seq<char>, f: DocFields, fuel: nat) -> Option<
    (DocFields, Seq<char>),
>
    decreases fuel,
{
    if fuel == 0 {
        None
    } else {
        let s1 = spec_ws(s);
        if s1.len() == 0 || s1[0] != '"' {
            None
        } else {
            match spec_string_body(s1.drop_first()) {
                None => None,
                Some((key, s2)) => {
                    let s3 = spec_ws(s2);
                    if s3.len() == 0 || s3[0] != ':' {
                        None
                    } else {
                        let s4 = spec_ws(s3.drop_first());
                        match spec_value(s4, fuel) {
                            None => None,
                            Some((v, s5)) => {
                                let f2 = set_field(f, key, v);
                                let s6 = spec_ws(s5);
                                if s6.len() == 0 {
                                    None
                                } else if s6[0] == ',' {
                                    spec_members(s6.drop_first(), f2, (fuel - 1) as nat)
                                } else if s6[0] == '}' {
                                    Some((f2, s6.drop_first()))
                                } else {
                                    None
                                }
                            },
                        }
                    }
                },
            }
        }
    }
}

/// Reads a whole document: the fields of a JSON object, or — for any other
/// single JSON value — no fields at all; `None` where the document is not
/// one valid JSON value.
pub open spec fn spec_doc_fields(s: Seq<char>) -> Option<DocFields> {
    let s1 = spec_ws(s);
    if s1.len() == 0 {
        None
    } else if s1[0] != '{' {
        match spec_skip_value(s1, s.len()) {
            Some(rest) => if spec_ws(rest).len() == 0 {
                Some(empty_fields())
            } else {
                None
            },
            None => None,
        }
    } else {
        let s2 = spec_ws(s1.drop_first());
        if s2.len() > 0 && s2[0] == '}' {
            if spec_ws(s2.drop_first()).len() == 0 {
                Some(empty_fields())
            } else {
                None
            }
        } else {
            match spec_members(s1.drop_first(), empty_fields(), s.len()) {
                Some((f, rest)) => if spec_ws(rest).len() == 0 {
                    Some(f)
                } else {
                    None
                },
                None => None,
            }
        }
    }
}

/// The record a set of read fields denotes: required fields default to
/// empty, optional ones to absent.
pub open spec fn record_of_fields(f: DocFields) -> RecordView {
    RecordView {
        receipt: match f.receipt {
            Some(s) => s,
            None => Seq::empty(),
        },
        device_id: match f.device_id {
            Some(s) => s,
            None => Seq::empty(),
        },
        activation_id: f.activation_id,
        project_id: f.project_id,
    }
}

/// What reading a document yields.
pub open spec fn spec_decode_record(s: Seq<char>) -> Option<RecordView> {
    match spec_doc_fields(s) {
        Some(f) => Some(record_of_fields(f)),
        None => None,
    }
}

/// Dropping whitespace does nothing where none leads.
proof fn lemma_ws_noop(s: Seq<char>)
    requires
        s.len() == 0 || !is_ws(s[0]),
    ensures
        spec_ws(s) == s,
{
}

/// A string of only normal characters renders as itself.
proof fn lemma_escape_id(s: Seq<char>)
    requires
        forall|i: int| 0 <= i < s.len() ==> normal_char(s[i]),
    ensures
        escape_str(s) == s,
    decreases s.len(),
{
    if s.len() == 0 {
        assert(escape_str(s) =~= s);
    } else {
        lemma_escape_id(s.drop_first());
        assert(escape_char(s[0]) =~= seq![s[0]]);
        assert(seq![s[0]] + s.drop_first() =~= s);
    }
}

/// Reading a rendered string consumes exactly the rendering and yields the
/// string back, whatever follows the closing quote.
proof fn lemma_string_body_round(s: Seq<char>, rest: Seq<char>)
    ensures
        spec_string_body(escape_str(s) + seq!['"'] + rest) == Some((s, rest)),
    decreases s.len(),
{
    let inp = escape_str(s) + seq!['"'] + rest;
    if s.len() == 0 {
        assert(escape_str(s) =~= Seq::<char>::empty());
        assert(inp =~= seq!['"'] + rest);
        assert(inp[0] == '"');
        assert(inp.drop_first() =~= rest);
        assert(s =~= Seq::<char>::empty());
    } else {
        let c = s[0];
        let tail = escape_str(s.drop_first()) + seq!['"'] + rest;
        assert(inp =~= escape_char(c) + tail);
        lemma_string_body_round(s.drop_first(), rest);
        if c == '"' {
            assert(inp[0] == '\\' && inp[1] == '"');
            assert(unescape_short('"') == Some('"'));
            assert(inp.skip(2) =~= tail);
            assert(seq!['"'] + s.drop_first() =~= s);
        } else if c == '\\' {
            assert(inp[0] == '\\' && inp[1] == '\\');
            assert(unescape_short('\\') == Some('\\'));
            assert(inp.skip(2) =~= tail);
            assert(seq!['\\'] + s.drop_first() =~= s);
        } else if 0 <= c as int && (c as int) < 32 {
            let hi = (c as int) / 16;
            let lo = (c as int) % 16;
            assert(0 <= hi < 2);
            assert(0 <= lo < 16);
            assert(inp[0] == '\\' && inp[1] == 'u' && inp[2] == '0' && inp[3] == '0' && inp[4]
                == hex_digit(hi) && inp[5] == hex_digit(lo));
            assert(hex_val('0') == Some(0int));
            assert(hex_val(hex_digit(hi)) == Some(hi));
            assert(hex_val(hex_digit(lo)) == Some(lo));
            let v = 0 * 4096 + 0 * 256 + hi * 16 + lo;
            assert(v == c as int);
            assert(v < 128);
            assert((v as char) == c);
            assert(inp.skip(6) =~= tail);
            assert(seq![c] + s.drop_first() =~= s);
            assert(spec_string_body(inp) == Some((seq![c] + s.drop_first(), rest)));
        } else {
            assert(inp[0] == c);
            assert(inp.drop_first() =~= tail);
            assert(seq![c] + s.drop_first() =~= s);
        }
    }
}

/// Reading an atom splits exactly at the first non-atom character.
proof fn lemma_atom_run_split(a: Seq<char>, rest: Seq<char>)
    requires
        forall|i: int| 0 <= i < a.len() ==> is_atom_char(a[i]),
        rest.len() > 0,
        !is_atom_char(rest[0]),
    ensures
        spec_atom_run(a + rest) == (a, rest),
    decreases a.len(),
{
    if a.len() == 0 {
        assert(a + rest =~= rest);
        assert(a =~= Seq::<char>::empty());
    } else {
        assert((a + rest)[0] == a[0]);
        assert((a + rest).drop_first() =~= a.drop_first() + rest);
        lemma_atom_run_split(a.drop_first(), rest);
        assert(seq![a[0]] + a.drop_first() =~= a);
    }
}

/// Reading one rendered member takes the member and its separator, records
/// the field, and continues exactly after the separator.
#[verifier::rlimit(60)]
proof fn lemma_parse_member(
    key: Seq<char>,
    v: Option<Seq<char>>,
    sep: char,
    rest: Seq<char>,
    f: DocFields,
    fuel: nat,
)
    requires
        fuel >= 1,
        forall|i: int| 0 <= i < key.len() ==> normal_char(key[i]),
        sep == ',' || sep == '}',
    ensures
        spec_members(member_text(key, v) + seq![sep] + rest, f, fuel) == (if sep == ',' {
            spec_members(rest, set_field(f, key, v), (fuel - 1) as nat)
        } else {
            Some((set_field(f, key, v), rest))
        }),
{
    let inp = member_text(key, v) + seq![sep] + rest;
    let after_key = seq![':'] + opt_json(v) + seq![sep] + rest;
    lemma_escape_id(key);
    assert(inp[0] == '"');
    lemma_ws_noop(inp);
    assert(inp.drop_first() =~= escape_str(key) + seq!['"'] + after_key);
    lemma_string_body_round(key, after_key);
    assert(after_key[0] == ':');
    lemma_ws_noop(after_key);
    let valpart = opt_json(v) + seq![sep] + rest;
    assert(after_key.drop_first() =~= valpart);
    let s5 = seq![sep] + rest;
    match v {
        Some(content) => {
            assert(valpart =~= seq!['"'] + (escape_str(content) + seq!['"'] + s5));
            assert(valpart[0] == '"');
            lemma_ws_noop(valpart);
            lemma_string_body_round(content, s5);
            assert(valpart.drop_first() =~= escape_str(content) + seq!['"'] + s5);
            assert(spec_value(valpart, fuel) == Some((Some(content), s5)));
        },
        None => {
            reveal_strlit("null");
            assert(valpart =~= "null"@ + s5);
            assert(valpart[0] == 'n');
            lemma_ws_noop(valpart);
            assert(forall|i: int| 0 <= i < "null"@.len() ==> is_atom_char("null"@[i]));
            assert(!is_atom_char(sep));
            lemma_atom_run_split("null"@, s5);
            assert(atom_ok("null"@));
            assert(spec_skip_value(valpart, fuel) == Some(s5));
            assert(spec_value(valpart, fuel) == Some((None::<Seq<char>>, s5)));
        },
    }
    lemma_ws_noop(s5);
    assert(s5[0] == sep);
    assert(s5.drop_first() =~= rest);
}

/// Reading a rendered record gives the record back: the store's round trip.
pub proof fn lemma_record_round_trip(r: RecordView)
    ensures
        spec_decode_record(record_doc(r)) == Some(r),
{
    reveal_strlit("receipt");
    reveal_strlit("device_id");
    reveal_strlit("activation_id");
    reveal_strlit("project_id");
    let doc = record_doc(r);
    let m1 = member_text("receipt"@, Some(r.receipt));
    let m2 = member_text("device_id"@, Some(r.device_id));
    let m3 = member_text("activation_id"@, r.activation_id);
    let m4 = member_text("project_id"@, r.project_id);
    let rest3 = Seq::<char>::empty();
    let rest2 = m4 + seq!['}'] + rest3;
    let rest1 = m3 + seq![','] + rest2;
    let rest0 = m2 + seq![','] + rest1;
    let body = m1 + seq![','] + rest0;
    assert(doc =~= seq!['{'] + body);
    assert(doc[0] == '{');
    lemma_ws_noop(doc);
    assert(doc.drop_first() =~= body);
    assert(body[0] == '"');
    lemma_ws_noop(body);
    assert(forall|i: int| 0 <= i < "receipt"@.len() ==> normal_char("receipt"@[i]));
    assert(forall|i: int| 0 <= i < "device_id"@.len() ==> normal_char("device_id"@[i]));
    assert(forall|i: int| 0 <= i < "activation_id"@.len() ==> normal_char("activation_id"@[i]));
    assert(forall|i: int| 0 <= i < "project_id"@.len() ==> normal_char("project_id"@[i]));
    let fuel0 = doc.len();
    assert(fuel0 >= 4);
    let f0 = empty_fields();
    let f1 = set_field(f0, "receipt"@, Some(r.receipt));
    let f2 = set_field(f1, "device_id"@, Some(r.device_id));
    let f3 = set_field(f2, "activation_id"@, r.activation_id);
    let f4 = set_field(f3, "project_id"@, r.project_id);
    lemma_parse_member("receipt"@, Some(r.receipt), ',', rest0, f0, fuel0);
    lemma_parse_member("device_id"@, Some(r.device_id), ',', rest1, f1, (fuel0 - 1) as nat);
    lemma_parse_member("activation_id"@, r.activation_id, ',', rest2, f2, (fuel0 - 2) as nat);
    lemma_parse_member("project_id"@, r.project_id, '}', rest3, f3, (fuel0 - 3) as nat);
    assert(spec_members(body, f0, fuel0) == Some((f4, rest3)));
    lemma_ws_noop(rest3);
    assert(spec_doc_fields(doc) == Some(f4));
    assert(f4.receipt == Some(r.receipt));
    assert(f4.device_id == Some(r.device_id));
    assert(record_of_fields(f4) =~= r);
}

/// Rendering distributes over concatenation.
pub proof fn lemma_escape_append(a: Seq<char>, b: Seq<char>)
    ensures
        escape_str(a + b) == escape_str(a) + escape_str(b),
    decreases a.len(),
{
    if a.len() == 0 {
        assert(a + b =~= b);
        assert(escape_str(a) + escape_str(b) =~= escape_str(b));
    } else {
        assert((a + b).drop_first() =~= a.drop_first() + b);
        assert((a + b)[0] == a[0]);
        lemma_escape_append(a.drop_first(), b);
        assert(escape_char(a[0]) + (escape_str(a.drop_first()) + escape_str(b)) =~= (escape_char(
            a[0],
        ) + escape_str(a.drop_first())) + escape_str(b));
        assert(escape_str(a + b) == escape_char(a[0]) + escape_str(a.drop_first() + b));
    }
}

/// The code of a control character.
fn control_code(c: char) -> (v: u8)
    requires
        '\u{0}' <= c && c <= '\u{1f}',
    ensures
        v as int == c as int,
        v < 32,
{
    if c == '\u{0}' {
        0
    } else if c == '\u{1}' {
        1
    } else if c == '\u{2}' {
        2
    } else if c == '\u{3}' {
        3
    } else if c == '\u{4}' {
        4
    } else if c == '\u{5}' {
        5
    } else if c == '\u{6}' {
        6
    } else if c == '\u{7}' {
        7
    } else if c == '\u{8}' {
        8
    } else if c == '\u{9}' {
        9
    } else if c == '\u{a}' {
        10
    } else if c == '\u{b}' {
        11
    } else if c == '\u{c}' {
        12
    } else if c == '\u{d}' {
        13
    } else if c == '\u{e}' {
        14
    } else if c == '\u{f}' {
        15
    } else if c == '\u{10}' {
        16
    } else if c == '\u{11}' {
        17
    } else if c == '\u{12}' {
        18
    } else if c == '\u{13}' {
        19
    } else if c == '\u{14}' {
        20
    } else if c == '\u{15}' {
        21
    } else if c == '\u{16}' {
        22
    } else if c == '\u{17}' {
        23
    } else if c == '\u{18}' {
        24
    } else if c == '\u{19}' {
        25
    } else if c == '\u{1a}' {
        26
    } else if c == '\u{1b}' {
        27
    } else if c == '\u{1c}' {
        28
    } else if c == '\u{1d}' {
        29
    } else if c == '\u{1e}' {
        30
    } else if c == '\u{1f}' {
        31
    } else {
        31
    }
}

/// The lowercase hex digit of a value below 16.
fn hex_digit_exec(v: u8) -> (c: char)
    requires
        v < 16,
    ensures
        c == hex_digit(v as int),
{
    if v == 0 {
        '0'
    } else if v == 1 {
        '1'
    } else if v == 2 {
        '2'
    } else if v == 3 {
        '3'
    } else if v == 4 {
        '4'
    } else if v == 5 {
        '5'
    } else if v == 6 {
        '6'
    } else if v == 7 {
        '7'
    } else if v == 8 {
        '8'
    } else if v == 9 {
        '9'
    } else if v == 10 {
        'a'
    } else if v == 11 {
        'b'
    } else if v == 12 {
        'c'
    } else if v == 13 {
        'd'
    } else if v == 14 {
        'e'
    } else {
        'f'
    }
}

/// Appends a literal's characters.
fn append_lit(out: &mut Vec<char>, lit: &str)
    ensures
        final(out)@ == old(out)@ + lit@,
{
    let mut l = chars_of(lit);
    out.append(&mut l);
}

/// Appends a rendered JSON string, quotes included.
fn append_quoted(out: &mut Vec<char>, s: &str)
    ensures
        final(out)@ == old(out)@ + quote(s@),
{
    out.push('"');
    let cs = chars_of(s);
    let n = cs.len();
    let mut i: usize = 0;
    while i < n
        invariant
            i <= n,
            n == cs@.len(),
            cs@ == s@,
            out@ == old(out)@ + seq!['"'] + escape_str(cs@.take(i as int)),
        decreases n - i,
    {
        let ghost prev = out@;
        let c = cs[i];
        if c == '"' {
            out.push('\\');
            out.push('"');
        } else if c == '\\' {
            out.push('\\');
            out.push('\\');
        } else if '\u{0}' <= c && c <= '\u{1f}' {
            out.push('\\');
            out.push('u');
            out.push('0');
            out.push('0');
            let code = control_code(c);
            out.push(hex_digit_exec(code / 16));
            out.push(hex_digit_exec(code % 16));
        } else {
            out.push(c);
        }
        proof {
            assert(out@ =~= prev + escape_char(cs@[i as int]));
            assert(cs@.take(i + 1) =~= cs@.take(i as int) + seq![cs@[i as int]]);
            lemma_escape_append(cs@.take(i as int), seq![cs@[i as int]]);
            assert(seq![cs@[i as int]].drop_first() =~= Seq::<char>::empty());
            assert(escape_str(Seq::<char>::empty()) =~= Seq::<char>::empty());
            assert(escape_str(seq![cs@[i as int]]) =~= escape_char(cs@[i as int]) + escape_str(
                Seq::<char>::empty(),
            ));
            assert(escape_str(seq![cs@[i as int]]) =~= escape_char(cs@[i as int]));
            assert(out@ =~= old(out)@ + seq!['"'] + escape_str(cs@.take(i + 1)));
        }
        i = i + 1;
    }
    proof {
        assert(cs@.take(n as int) =~= cs@);
    }
    out.push('"');
    proof {
        assert(out@ =~= old(out)@ + quote(s@));
    }
}

/// Appends one rendered member whose value is a string.
fn append_str_member(out: &mut Vec<char>, key: &str, v: &str)
    ensures
        final(out)@ == old(out)@ + member_text(key@, Some(v@)),
{
    out.push('"');
    append_lit(out, key);
    out.push('"');
    out.push(':');
    append_quoted(out, v);
    proof {
        assert(out@ =~= old(out)@ + member_text(key@, Some(v@)));
    }
}

/// Appends one rendered member whose value may be absent.
fn append_opt_member(out: &mut Vec<char>, key: &str, v: &Option<String>)
    ensures
        final(out)@ == old(out)@ + member_text(key@, crate::receipt::opt_view(*v)),
{
    out.push('"');
    append_lit(out, key);
    out.push('"');
    out.push(':');
    match v {
        Some(s) => append_quoted(out, s.as_str()),
        None => append_lit(out, "null"),
    }
    proof {
        assert(out@ =~= old(out)@ + member_text(key@, crate::receipt::opt_view(*v)));
    }
}

/// Renders a record as the receipt document.
pub fn encode_record(r: &ReceiptRecord) -> (out: String)
    ensures
        out@ == record_doc(r@),
{
    let mut out: Vec<char> = Vec::new();
    out.push('{');
    append_str_member(&mut out, "receipt", r.receipt.as_str());
    out.push(',');
    append_str_member(&mut out, "device_id", r.device_id.as_str());
    out.push(',');
    append_opt_member(&mut out, "activation_id", &r.activation_id);
    out.push(',');
    append_opt_member(&mut out, "project_id", &r.project_id);
    out.push('}');
    proof {
        assert(out@ =~= record_doc(r@));
    }
    string_of(out.as_slice())
}

/// JSON whitespace.
fn is_ws_exec(c: char) -> (b: bool)
    ensures
        b == is_ws(c),
{
    c == ' ' || c == '\t' || c == '\n' || c == '\r'
}

/// A character that may appear in an unquoted atom.
fn is_atom_char_exec(c: char) -> (b: bool)
    ensures
        b == is_atom_char(c),
{
    ('0' <= c && c <= '9') || ('a' <= c && c <= 'z') || ('A' <= c && c <= 'Z') || c == '+' || c
        == '-' || c == '.'
}

/// The value of a hex digit, either case.
fn hex_val_exec(c: char) -> (r: Option<u8>)
    ensures
        match hex_val(c) {
            Some(v) => r matches Some(b) && b as int == v,
            None => r is None,
        },
{
    if c == '0' {
        Some(0)
    } else if c == '1' {
        Some(1)
    } else if c == '2' {
        Some(2)
    } else if c == '3' {
        Some(3)
    } else if c == '4' {
        Some(4)
    } else if c == '5' {
        Some(5)
    } else if c == '6' {
        Some(6)
    } else if c == '7' {
        Some(7)
    } else if c == '8' {
        Some(8)
    } else if c == '9' {
        Some(9)
    } else if c == 'a' || c == 'A' {
        Some(10)
    } else if c == 'b' || c == 'B' {
        Some(11)
    } else if c == 'c' || c == 'C' {
        Some(12)
    } else if c == 'd' || c == 'D' {
        Some(13)
    } else if c == 'e' || c == 'E' {
        Some(14)
    } else if c == 'f' || c == 'F' {
        Some(15)
    } else {
        None
    }
}

/// The one-character escapes a string may use.
fn unescape_short_exec(c: char) -> (r: Option<char>)
    ensures
        r == unescape_short(c),
{
    if c == '"' {
        Some('"')
    } else if c == '\\' {
        Some('\\')
    } else if c == '/' {
        Some('/')
    } else if c == 'n' {
        Some('\n')
    } else if c == 't' {
        Some('\t')
    } else if c == 'r' {
        Some('\r')
    } else if c == 'b' {
        Some('\u{8}')
    } else if c == 'f' {
        Some('\u{c}')
    } else {
        None
    }
}

/// Drops leading whitespace.
fn skip_ws<'a>(s: &'a [char]) -> (r: &'a [char])
    ensures
        r@ == spec_ws(s@),
{
    let n = s.len();
    let mut i: usize = 0;
    proof {
        assert(s@.skip(0) =~= s@);
    }
    while i < n && is_ws_exec(s[i])
        invariant
            i <= n,
            n == s@.len(),
            spec_ws(s@) == spec_ws(s@.skip(i as int)),
        decreases n - i,
    {
        proof {
            assert(s@.skip(i as int)[0] == s@[i as int]);
            assert(s@.skip(i as int).drop_first() =~= s@.skip(i + 1));
        }
        i = i + 1;
    }
    proof {
        let cur = s@.skip(i as int);
        if i < n {
            assert(cur[0] == s@[i as int]);
        }
        assert(spec_ws(cur) == cur);
    }
    slice_subrange(s, i, n)
}

/// Reads a JSON string from after its opening quote.
/// The value of four hex digits starting at `i`.
fn hex4_exec(s: &[char], i: usize) -> (r: Option<u32>)
    requires
        i + 4 <= s@.len(),
    ensures
        match hex4(s@, i as int) {
            Some(v) => r matches Some(x) && x as int == v,
            None => r is None,
        },
{
    let h1 = hex_val_exec(s[i]);
    let h2 = hex_val_exec(s[i + 1]);
    let h3 = hex_val_exec(s[i + 2]);
    let h4 = hex_val_exec(s[i + 3]);
    match (h1, h2, h3, h4) {
        (Some(h1), Some(h2), Some(h3), Some(h4)) => Some(
            (h1 as u32) * 4096 + (h2 as u32) * 256 + (h3 as u32) * 16 + (h4 as u32),
        ),
        _ => None,
    }
}

#[verifier::rlimit(100)]
fn string_body<'a>(s: &'a [char]) -> (r: Option<(Vec<char>, &'a [char])>)
    ensures
        match spec_string_body(s@) {
            Some((content, rest)) => r matches Some(p) && p.0@ == content && p.1@ == rest,
            None => r is None,
        },
{
    let n = s.len();
    let mut out: Vec<char> = Vec::new();
    let mut i: usize = 0;
    proof {
        assert(s@.skip(0) =~= s@);
        match spec_string_body(s@) {
            Some((content, rest)) => {
                assert(Seq::<char>::empty() + content =~= content);
            },
            None => {},
        }
    }
    loop
        invariant
            i <= n,
            n == s@.len(),
            match spec_string_body(s@.skip(i as int)) {
                Some((content, rest)) => spec_string_body(s@) == Some((out@ + content, rest)),
                None => spec_string_body(s@) is None,
            },
        decreases n - i,
    {
        let ghost cur = s@.skip(i as int);
        if i >= n {
            return None;
        }
        let c = s[i];
        proof {
            assert(cur[0] == c);
        }
        if c == '"' {
            proof {
                assert(cur.drop_first() =~= s@.skip(i + 1));
                assert(out@ + Seq::<char>::empty() =~= out@);
            }
            return Some((out, slice_subrange(s, i + 1, n)));
        }
        if c == '\\' {
            if n - i < 2 {
                return None;
            }
            proof {
                assert(cur[1] == s@[i + 1]);
            }
            if s[i + 1] == 'u' {
                if n - i < 6 {
                    return None;
                }
                proof {
                    assert(hex4(cur, 2) == hex4(s@, i + 2)) by {
                        assert(cur[2] == s@[i + 2] && cur[3] == s@[i + 3] && cur[4] == s@[i + 4]
                            && cur[5] == s@[i + 5]);
                    }
                }
                let v1 = match hex4_exec(s, i + 2) {
                    Some(v1) => v1,
                    None => {
                        return None;
                    },
                };
                if 0xD800 <= v1 && v1 < 0xDC00 {
                    if n - i < 12 {
                        return None;
                    }
                    proof {
                        assert(cur[6] == s@[i + 6] && cur[7] == s@[i + 7]);
                    }
                    if !(s[i + 6] == '\\' && s[i + 7] == 'u') {
                        return None;
                    }
                    proof {
                        assert(hex4(cur, 8) == hex4(s@, i + 8)) by {
                            assert(cur[8] == s@[i + 8] && cur[9] == s@[i + 9] && cur[10] == s@[i
                                + 10] && cur[11] == s@[i + 11]);
                        }
                    }
                    let v2 = match hex4_exec(s, i + 8) {
                        Some(v2) => v2,
                        None => {
                            return None;
                        },
                    };
                    if !(0xDC00 <= v2 && v2 < 0xE000) {
                        return None;
                    }
                    let code: u32 = 0x10000 + (v1 - 0xD800) * 0x400 + (v2 - 0xDC00);
                    let ch = match char_from_code(code) {
                        Some(ch) => ch,
                        None => {
                            return None;
                        },
                    };
                    let ghost pre = out@;
                    out.push(ch);
                    proof {
                        assert(cur.skip(12) =~= s@.skip(i + 12));
                        match spec_string_body(s@.skip(i + 12)) {
                            Some((content2, rest2)) => {
                                assert(spec_string_body(cur) == Some(
                                    (seq![ch] + content2, rest2),
                                ));
                                assert(out@ + content2 =~= pre + (seq![ch] + content2));
                            },
                            None => {},
                        }
                    }
                    i = i + 12;
                } else if 0xDC00 <= v1 && v1 < 0xE000 {
                    return None;
                } else {
                    let ch = match char_from_code(v1) {
                        Some(ch) => ch,
                        None => {
                            return None;
                        },
                    };
                    let ghost pre = out@;
                    out.push(ch);
                    proof {
                        assert(cur.skip(6) =~= s@.skip(i + 6));
                        match spec_string_body(s@.skip(i + 6)) {
                            Some((content2, rest2)) => {
                                assert(spec_string_body(cur) == Some(
                                    (seq![ch] + content2, rest2),
                                ));
                                assert(out@ + content2 =~= pre + (seq![ch] + content2));
                            },
                            None => {},
                        }
                    }
                    i = i + 6;
                }
            } else {
                match unescape_short_exec(s[i + 1]) {
                    Some(ch) => {
                        let ghost pre = out@;
                        out.push(ch);
                        proof {
                            assert(cur.skip(2) =~= s@.skip(i + 2));
                            match spec_string_body(s@.skip(i + 2)) {
                                Some((content2, rest2)) => {
                                    assert(spec_string_body(cur) == Some(
                                        (seq![ch] + content2, rest2),
                                    ));
                                    assert(out@ + content2 =~= pre + (seq![ch] + content2));
                                },
                                None => {},
                            }
                        }
                        i = i + 2;
                    },
                    None => {
                        return None;
                    },
                }
            }
        } else if '\u{0}' <= c && c <= '\u{1f}' {
            return None;
        } else {
            let ghost pre = out@;
            out.push(c);
            proof {
                assert(cur.drop_first() =~= s@.skip(i + 1));
                match spec_string_body(s@.skip(i + 1)) {
                    Some((content2, rest2)) => {
                        assert(spec_string_body(cur) == Some((seq![c] + content2, rest2)));
                        assert(out@ + content2 =~= pre + (seq![c] + content2));
                    },
                    None => {},
                }
            }
            i = i + 1;
        }
    }
}

/// The leading atom run splits at the first non-atom character.
proof fn lemma_atom_run_at(s: Seq<char>, k: int)
    requires
        0 <= k <= s.len(),
        forall|j: int| 0 <= j < k ==> is_atom_char(s[j]),
        k == s.len() || !is_atom_char(s[k]),
    ensures
        spec_atom_run(s) == (s.take(k), s.skip(k)),
    decreases k,
{
    if k == 0 {
        assert(s.take(0) =~= Seq::<char>::empty());
        assert(s.skip(0) =~= s);
    } else {
        assert(forall|j: int| 0 <= j < k - 1 ==> is_atom_char(s.drop_first()[j]));
        assert(k - 1 == s.drop_first().len() || !is_atom_char(s.drop_first()[k - 1]));
        lemma_atom_run_at(s.drop_first(), k - 1);
        assert(s.drop_first().skip(k - 1) =~= s.skip(k));
        assert(seq![s[0]] + s.drop_first().take(k - 1) =~= s.take(k));
    }
}

/// The maximal leading run of atom characters.
fn atom_run<'a>(s: &'a [char]) -> (r: (Vec<char>, &'a [char]))
    ensures
        r.0@ == spec_atom_run(s@).0,
        r.1@ == spec_atom_run(s@).1,
{
    let n = s.len();
    let mut i: usize = 0;
    while i < n && is_atom_char_exec(s[i])
        invariant
            i <= n,
            n == s@.len(),
            forall|j: int| 0 <= j < i ==> is_atom_char(s@[j]),
        decreases n - i,
    {
        i = i + 1;
    }
    proof {
        lemma_atom_run_at(s@, i as int);
        assert(s@.subrange(0, i as int) =~= s@.take(i as int));
    }
    let run = vstd::slice::slice_to_vec(slice_subrange(s, 0, i));
    (run, slice_subrange(s, i, n))
}

/// Whether two character slices hold the same characters.
pub(crate) fn chars_eq(a: &[char], b: &[char]) -> (r: bool)
    ensures
        r == (a@ == b@),
{
    if a.len() != b.len() {
        return false;
    }
    let n = a.len();
    let mut i: usize = 0;
    while i < n
        invariant
            i <= n,
            n == a@.len() == b@.len(),
            forall|j: int| 0 <= j < i ==> a@[j] == b@[j],
        decreases n - i,
    {
        if a[i] != b[i] {
            return false;
        }
        i = i + 1;
    }
    proof {
        assert(a@ =~= b@);
    }
    true
}

/// Whether a character slice holds a literal's characters.
fn is_lit(a: &[char], lit: &str) -> (r: bool)
    ensures
        r == (a@ == lit@),
{
    let l = chars_of(lit);
    chars_eq(a, l.as_slice())
}

/// The first index at or after `i` that does not hold a digit.
fn digits_end_exec(a: &[char], i: usize) -> (r: usize)
    requires
        i <= a@.len(),
    ensures
        r == digits_end(a@, i as int),
        i <= r <= a@.len(),
{
    let mut j = i;
    while j < a.len() && '0' <= a[j] && a[j] <= '9'
        invariant
            i <= j <= a@.len(),
            digits_end(a@, i as int) == digits_end(a@, j as int),
        decreases a@.len() - j,
    {
        j = j + 1;
    }
    j
}

/// Whether an atom is one this reader accepts.
fn atom_check(a: &[char]) -> (r: bool)
    ensures
        r == atom_ok(a@),
{
    if is_lit(a, "null") || is_lit(a, "true") || is_lit(a, "false") {
        return true;
    }
    let n = a.len();
    let i0: usize = if n > 0 && a[0] == '-' {
        1
    } else {
        0
    };
    if i0 >= n {
        return false;
    }
    let c0 = a[i0];
    if !('0' <= c0 && c0 <= '9') {
        return false;
    }
    let i1 = if c0 == '0' {
        i0 + 1
    } else {
        digits_end_exec(a, i0)
    };
    let i2 = if i1 < n && a[i1] == '.' {
        let j = digits_end_exec(a, i1 + 1);
        if j == i1 + 1 {
            return false;
        }
        j
    } else {
        i1
    };
    let i3 = if i2 < n && (a[i2] == 'e' || a[i2] == 'E') {
        let k = if i2 + 1 < n && (a[i2 + 1] == '+' || a[i2 + 1] == '-') {
            i2 + 2
        } else {
            i2 + 1
        };
        let j = digits_end_exec(a, k);
        if j == k {
            return false;
        }
        j
    } else {
        i2
    };
    i3 == n
}

/// Scans a JSON string from after its opening quote without decoding it.
fn skip_string<'a>(s: &'a [char]) -> (r: Option<&'a [char]>)
    ensures
        match spec_skip_string(s@) {
            Some(rest) => r matches Some(x) && x@ == rest,
            None => r is None,
        },
{
    let n = s.len();
    let mut i: usize = 0;
    proof {
        assert(s@.skip(0) =~= s@);
    }
    loop
        invariant
            i <= n,
            n == s@.len(),
            spec_skip_string(s@) == spec_skip_string(s@.skip(i as int)),
        decreases n - i,
    {
        let ghost cur = s@.skip(i as int);
        if i >= n {
            return None;
        }
        let c = s[i];
        proof {
            assert(cur[0] == c);
        }
        if c == '"' {
            proof {
                assert(cur.drop_first() =~= s@.skip(i + 1));
            }
            return Some(slice_subrange(s, i + 1, n));
        }
        if c == '\\' {
            if n - i < 2 {
                return None;
            }
            proof {
                assert(cur[1] == s@[i + 1]);
            }
            if s[i + 1] == 'u' {
                if n - i < 6 {
                    return None;
                }
                proof {
                    assert(hex4(cur, 2) == hex4(s@, i + 2)) by {
                        assert(cur[2] == s@[i + 2] && cur[3] == s@[i + 3] && cur[4] == s@[i + 4]
                            && cur[5] == s@[i + 5]);
                    }
                }
                let v1 = match hex4_exec(s, i + 2) {
                    Some(v1) => v1,
                    None => {
                        return None;
                    },
                };
                if 0xD800 <= v1 && v1 < 0xDC00 {
                    if n - i < 12 {
                        return None;
                    }
                    proof {
                        assert(cur[6] == s@[i + 6] && cur[7] == s@[i + 7]);
                    }
                    if !(s[i + 6] == '\\' && s[i + 7] == 'u') {
                        return None;
                    }
                    proof {
                        assert(hex4(cur, 8) == hex4(s@, i + 8)) by {
                            assert(cur[8] == s@[i + 8] && cur[9] == s@[i + 9] && cur[10] == s@[i
                                + 10] && cur[11] == s@[i + 11]);
                        }
                    }
                    let v2 = match hex4_exec(s, i + 8) {
                        Some(v2) => v2,
                        None => {
                            return None;
                        },
                    };
                    if !(0xDC00 <= v2 && v2 < 0xE000) {
                        return None;
                    }
                    proof {
                        assert(cur.skip(12) =~= s@.skip(i + 12));
                    }
                    i = i + 12;
                } else if 0xDC00 <= v1 && v1 < 0xE000 {
                    return None;
                } else {
                    proof {
                        assert(cur.skip(6) =~= s@.skip(i + 6));
                    }
                    i = i + 6;
                }
            } else {
                match unescape_short_exec(s[i + 1]) {
                    Some(_) => {
                        proof {
                            assert(cur.skip(2) =~= s@.skip(i + 2));
                        }
                        i = i + 2;
                    },
                    None => {
                        return None;
                    },
                }
            }
        } else if '\u{0}' <= c && c <= '\u{1f}' {
            return None;
        } else {
            proof {
                assert(cur.drop_first() =~= s@.skip(i + 1));
            }
            i = i + 1;
        }
    }
}

/// Skips one JSON value of any kind.
fn skip_value<'a>(s: &'a [char], fuel: usize) -> (r: Option<&'a [char]>)
    ensures
        match spec_skip_value(s@, fuel as nat) {
            Some(rest) => r matches Some(x) && x@ == rest,
            None => r is None,
        },
    decreases fuel, 3int,
{
    if s.len() == 0 {
        return None;
    }
    let c = s[0];
    if c == '"' {
        proof {
            assert(s@.subrange(1, s@.len() as int) =~= s@.drop_first());
        }
        skip_string(slice_subrange(s, 1, s.len()))
    } else if c == '{' {
        proof {
            assert(s@.subrange(1, s@.len() as int) =~= s@.drop_first());
        }
        skip_object_body(slice_subrange(s, 1, s.len()), fuel)
    } else if c == '[' {
        proof {
            assert(s@.subrange(1, s@.len() as int) =~= s@.drop_first());
        }
        skip_array_body(slice_subrange(s, 1, s.len()), fuel)
    } else {
        let (run, rest) = atom_run(s);
        if atom_check(run.as_slice()) {
            Some(rest)
        } else {
            None
        }
    }
}

/// Skips an object from after its opening brace.
fn skip_object_body<'a>(s: &'a [char], fuel: usize) -> (r: Option<&'a [char]>)
    ensures
        match spec_skip_object_body(s@, fuel as nat) {
            Some(rest) => r matches Some(x) && x@ == rest,
            None => r is None,
        },
    decreases fuel, 2int,
{
    let s1 = skip_ws(s);
    if s1.len() > 0 && s1[0] == '}' {
        proof {
            assert(s1@.subrange(1, s1@.len() as int) =~= s1@.drop_first());
        }
        Some(slice_subrange(s1, 1, s1.len()))
    } else {
        skip_members(s1, fuel)
    }
}

/// Skips one or more `key: value` members and the closing brace.
fn skip_members<'a>(s: &'a [char], fuel: usize) -> (r: Option<&'a [char]>)
    ensures
        match spec_skip_members(s@, fuel as nat) {
            Some(rest) => r matches Some(x) && x@ == rest,
            None => r is None,
        },
    decreases fuel, 1int,
{
    let mut cur: &[char] = s;
    let mut fl = fuel;
    loop
        invariant
            fl <= fuel,
            spec_skip_members(s@, fuel as nat) == spec_skip_members(cur@, fl as nat),
        decreases fl,
    {
        if fl == 0 {
            return None;
        }
        let s1 = skip_ws(cur);
        if s1.len() == 0 {
            return None;
        }
        if s1[0] != '"' {
            return None;
        }
        proof {
            assert(s1@.subrange(1, s1@.len() as int) =~= s1@.drop_first());
        }
        let s2 = match skip_string(slice_subrange(s1, 1, s1.len())) {
            Some(s2) => s2,
            None => {
                return None;
            },
        };
        let s3 = skip_ws(s2);
        if s3.len() == 0 {
            return None;
        }
        if s3[0] != ':' {
            return None;
        }
        proof {
            assert(s3@.subrange(1, s3@.len() as int) =~= s3@.drop_first());
        }
        let s5 = match skip_value(skip_ws(slice_subrange(s3, 1, s3.len())), fl - 1) {
            Some(s5) => s5,
            None => {
                return None;
            },
        };
        let s6 = skip_ws(s5);
        if s6.len() == 0 {
            return None;
        }
        proof {
            assert(s6@.subrange(1, s6@.len() as int) =~= s6@.drop_first());
        }
        if s6[0] == ',' {
            cur = slice_subrange(s6, 1, s6.len());
            fl = fl - 1;
        } else if s6[0] == '}' {
            return Some(slice_subrange(s6, 1, s6.len()));
        } else {
            return None;
        }
    }
}

/// Skips an array from after its opening bracket.
fn skip_array_body<'a>(s: &'a [char], fuel: usize) -> (r: Option<&'a [char]>)
    ensures
        match spec_skip_array_body(s@, fuel as nat) {
            Some(rest) => r matches Some(x) && x@ == rest,
            None => r is None,
        },
    decreases fuel, 2int,
{
    let s1 = skip_ws(s);
    if s1.len() > 0 && s1[0] == ']' {
        proof {
            assert(s1@.subrange(1, s1@.len() as int) =~= s1@.drop_first());
        }
        Some(slice_subrange(s1, 1, s1.len()))
    } else {
        skip_elems(s1, fuel)
    }
}

/// Skips one or more array elements and the closing bracket.
fn skip_elems<'a>(s: &'a [char], fuel: usize) -> (r: Option<&'a [char]>)
    ensures
        match spec_skip_elems(s@, fuel as nat) {
            Some(rest) => r matches Some(x) && x@ == rest,
            None => r is None,
        },
    decreases fuel, 1int,
{
    let mut cur: &[char] = s;
    let mut fl = fuel;
    loop
        invariant
            fl <= fuel,
            spec_skip_elems(s@, fuel as nat) == spec_skip_elems(cur@, fl as nat),
        decreases fl,
    {
        if fl == 0 {
            return None;
        }
        let s2 = match skip_value(skip_ws(cur), fl - 1) {
            Some(s2) => s2,
            None => {
                return None;
            },
        };
        let s3 = skip_ws(s2);
        if s3.len() == 0 {
            return None;
        }
        proof {
            assert(s3@.subrange(1, s3@.len() as int) =~= s3@.drop_first());
        }
        if s3[0] == ',' {
            cur = slice_subrange(s3, 1, s3.len());
            fl = fl - 1;
        } else if s3[0] == ']' {
            return Some(slice_subrange(s3, 1, s3.len()));
        } else {
            return None;
        }
    }
}

/// Reads one member value.
fn json_value<'a>(s: &'a [char], fuel: usize) -> (r: Option<(Option<Vec<char>>, &'a [char])>)
    ensures
        match spec_value(s@, fuel as nat) {
            Some((v, rest)) => r matches Some(p) && p.1@ == rest && (match v {
                Some(content) => p.0 matches Some(c) && c@ == content,
                None => p.0 is None,
            }),
            None => r is None,
        },
{
    if s.len() == 0 {
        return None;
    }
    let c = s[0];
    if c == '"' {
        proof {
            assert(s@.subrange(1, s@.len() as int) =~= s@.drop_first());
        }
        match string_body(slice_subrange(s, 1, s.len())) {
            Some((body, rest)) => Some((Some(body), rest)),
            None => None,
        }
    } else {
        match skip_value(s, fuel) {
            Some(rest) => Some((None, rest)),
            None => None,
        }
    }
}

/// The four fields while a document is being read.
struct ParsedFields {
    receipt: Option<Vec<char>>,
    device_id: Option<Vec<char>>,
    activation_id: Option<Vec<char>>,
    project_id: Option<Vec<char>>,
}

impl View for ParsedFields {
    type V = DocFields;

    closed spec fn view(&self) -> DocFields {
        DocFields {
            receipt: match self.receipt {
                Some(ref v) => Some(v@),
                None => None,
            },
            device_id: match self.device_id {
                Some(ref v) => Some(v@),
                None => None,
            },
            activation_id: match self.activation_id {
                Some(ref v) => Some(v@),
                None => None,
            },
            project_id: match self.project_id {
                Some(ref v) => Some(v@),
                None => None,
            },
        }
    }
}

/// Records one member into the fields.
fn set_field_exec(f: ParsedFields, key: &[char], v: Option<Vec<char>>) -> (r: ParsedFields)
    ensures
        r@ == set_field(f@, key@, match v {
            Some(ref c) => Some(c@),
            None => None,
        }),
{
    if is_lit(key, "receipt") {
        ParsedFields { receipt: v, ..f }
    } else if is_lit(key, "device_id") {
        ParsedFields { device_id: v, ..f }
    } else if is_lit(key, "activation_id") {
        ParsedFields { activation_id: v, ..f }
    } else if is_lit(key, "project_id") {
        ParsedFields { project_id: v, ..f }
    } else {
        f
    }
}

/// Reads the members of an object from after its opening brace.
fn members<'a>(s: &'a [char], f: ParsedFields, fuel: usize) -> (r: Option<
    (ParsedFields, &'a [char]),
>)
    ensures
        match spec_members(s@, f@, fuel as nat) {
            Some((g, rest)) => r matches Some(p) && p.0@ == g && p.1@ == rest,
            None => r is None,
        },
{
    let mut cur: &[char] = s;
    let mut fields = f;
    let mut fl = fuel;
    loop
        invariant
            spec_members(s@, f@, fuel as nat) == spec_members(cur@, fields@, fl as nat),
        decreases fl,
    {
        if fl == 0 {
            return None;
        }
        let s1 = skip_ws(cur);
        if s1.len() == 0 {
            return None;
        }
        if s1[0] != '"' {
            return None;
        }
        proof {
            assert(s1@.subrange(1, s1@.len() as int) =~= s1@.drop_first());
        }
        let (key, s2) = match string_body(slice_subrange(s1, 1, s1.len())) {
            Some(p) => p,
            None => {
                return None;
            },
        };
        let s3 = skip_ws(s2);
        if s3.len() == 0 {
            return None;
        }
        if s3[0] != ':' {
            return None;
        }
        proof {
            assert(s3@.subrange(1, s3@.len() as int) =~= s3@.drop_first());
        }
        let s4 = skip_ws(slice_subrange(s3, 1, s3.len()));
        let (v, s5) = match json_value(s4, fl) {
            Some(p) => p,
            None => {
                return None;
            },
        };
        let f2 = set_field_exec(fields, key.as_slice(), v);
        let s6 = skip_ws(s5);
        if s6.len() == 0 {
            return None;
        }
        proof {
            assert(s6@.subrange(1, s6@.len() as int) =~= s6@.drop_first());
        }
        if s6[0] == ',' {
            cur = slice_subrange(s6, 1, s6.len());
            fields = f2;
            fl = fl - 1;
        } else if s6[0] == '}' {
            return Some((f2, slice_subrange(s6, 1, s6.len())));
        } else {
            return None;
        }
    }
}

/// The record a set of read fields denotes.
fn build_record(f: ParsedFields) -> (r: ReceiptRecord)
    ensures
        r@ == record_of_fields(f@),
{
    ReceiptRecord {
        receipt: match f.receipt {
            Some(v) => string_of(v.as_slice()),
            None => String::new(),
        },
        device_id: match f.device_id {
            Some(v) => string_of(v.as_slice()),
            None => String::new(),
        },
        activation_id: match f.activation_id {
            Some(v) => Some(string_of(v.as_slice())),
            None => None,
        },
        project_id: match f.project_id {
            Some(v) => Some(string_of(v.as_slice())),
            None => None,
        },
    }
}

/// Reads a receipt document back into a record, defaulting what the
/// document does not carry; fails with `parse_failed` where the content is
/// not a single valid JSON value.
pub fn decode_record(content: &str) -> (r: Result<ReceiptRecord, StorageError>)
    ensures
        match spec_decode_record(content@) {
            Some(rv) => r matches Ok(rec) && rec@ == rv,
            None => r matches Err(e) && e.0@ == "parse_failed"@,
        },
{
    let chars = chars_of(content);
    let fuel = chars.len();
    let s1 = skip_ws(chars.as_slice());
    if s1.len() == 0 {
        return Err(StorageError::new("parse_failed"));
    }
    if s1[0] != '{' {
        // a document that is no object at all still reads, as a record of
        // defaults, provided it is one whole JSON value
        let rest = match skip_value(s1, fuel) {
            Some(rest) => rest,
            None => {
                return Err(StorageError::new("parse_failed"));
            },
        };
        let tail = skip_ws(rest);
        if tail.len() == 0 {
            let empty = ParsedFields {
                receipt: None,
                device_id: None,
                activation_id: None,
                project_id: None,
            };
            return Ok(build_record(empty));
        } else {
            return Err(StorageError::new("parse_failed"));
        }
    }
    proof {
        assert(s1@.subrange(1, s1@.len() as int) =~= s1@.drop_first());
    }
    let body = slice_subrange(s1, 1, s1.len());
    let s2 = skip_ws(body);
    if s2.len() > 0 && s2[0] == '}' {
        proof {
            assert(s2@.subrange(1, s2@.len() as int) =~= s2@.drop_first());
        }
        let tail = skip_ws(slice_subrange(s2, 1, s2.len()));
        if tail.len() == 0 {
            let empty = ParsedFields {
                receipt: None,
                device_id: None,
                activation_id: None,
                project_id: None,
            };
            return Ok(build_record(empty));
        } else {
            return Err(StorageError::new("parse_failed"));
        }
    }
    let empty = ParsedFields { receipt: None, device_id: None, activation_id: None, project_id: None };
    match members(body, empty, fuel) {
        Some((f, rest)) => {
            let tail = skip_ws(rest);
            if tail.len() == 0 {
                Ok(build_record(f))
            } else {
                Err(StorageError::new("parse_failed"))
            }
        },
        None => Err(StorageError::new("parse_failed")),
    }
}

} // verus!
