//! The lockfile codec: a JSON encoder and parser for the instance manifest.
//!
//! The manifest is persisted as one JSON document of the shape
//! `{"loader":..,"minecraft_version":..,"mods":[{"name":..,"slug":..,"version":..},..]}`.
//! `encode_instance` produces the canonical form of that document: no
//! whitespace between tokens, fields in the order above, and inside strings
//! exactly `\"` and `\\` for quote and backslash and `\u00XX` for control
//! characters. `parse_instance` accepts the canonical form, with the standard
//! short escapes (`\/`, `\b`, `\f`, `\n`, `\r`, `\t`) and `\u00XX` also
//! allowed inside strings, and rejects everything else. Parsing a document
//! that `encode_instance` produced always gives back the manifest it encoded
//! (`lemma_lockfile_roundtrip`).

use vstd::prelude::*;
use vstd::string::StrSliceExecFns;
use vstd::string::StringExecFns;

use crate::minecraft::{InstalledMod, InstalledModView, MinecraftInstance, MinecraftInstanceView};
use crate::strutil::{push_char, hex_char, spec_hex_char, is_ascii_digit, digit_value};
use crate::common::McpmDataError;

verus! {

// ---------------------------------------------------------------------------
// The canonical encoding, as a mathematical function.
// ---------------------------------------------------------------------------
/// How one character is written inside a JSON string: itself, a two-character
/// escape for quote and backslash, or `\u00XX` for control characters.
pub open spec fn spec_escape_char(c: char) -> Seq<char> {
    if c == '"' {
        seq!['\\', '"']
    } else if c == '\\' {
        seq!['\\', '\\']
    } else if (c as u32) < 32 {
        seq!['\\', 'u', '0', '0', spec_hex_char(c as u32 as int / 16), spec_hex_char(
            c as u32 as int % 16,
        )]
    } else {
        seq![c]
    }
}

/// A character sequence with every character escaped as JSON requires.
pub open spec fn spec_escape(s: Seq<char>) -> Seq<char>
    decreases s.len(),
{
    if s.len() == 0 {
        Seq::empty()
    } else {
        spec_escape_char(s[0]) + spec_escape(s.skip(1))
    }
}

/// A JSON string literal: the escaped content between two quotes.
pub open spec fn spec_encode_string(s: Seq<char>) -> Seq<char> {
    seq!['"'] + spec_escape(s) + seq!['"']
}

/// The JSON object written for one installed mod.
pub open spec fn spec_encode_mod(m: InstalledModView) -> Seq<char> {
    "{\"name\":"@ + spec_encode_string(m.name) + ",\"slug\":"@ + spec_encode_string(m.slug)
        + ",\"version\":"@ + spec_encode_string(m.version) + "}"@
}

/// The mods after the first, each preceded by a comma.
pub open spec fn spec_encode_mods_tail(mods: Seq<InstalledModView>) -> Seq<char>
    decreases mods.len(),
{
    if mods.len() == 0 {
        Seq::empty()
    } else {
        seq![','] + spec_encode_mod(mods[0]) + spec_encode_mods_tail(mods.skip(1))
    }
}

/// The JSON array written for the installed mods.
pub open spec fn spec_encode_mods(mods: Seq<InstalledModView>) -> Seq<char> {
    if mods.len() == 0 {
        seq!['[', ']']
    } else {
        seq!['['] + spec_encode_mod(mods[0]) + spec_encode_mods_tail(mods.skip(1)) + seq![']']
    }
}

/// The whole lockfile document for a manifest.
pub open spec fn spec_encode_instance(v: MinecraftInstanceView) -> Seq<char> {
    "{\"loader\":"@ + spec_encode_string(v.loader) + ",\"minecraft_version\":"@
        + spec_encode_string(v.minecraft_version) + ",\"mods\":"@ + spec_encode_mods(v.mods)
        + "}"@
}

// ---------------------------------------------------------------------------
// The executable encoder.
// ---------------------------------------------------------------------------
/// Appends the escaped form of one character.
fn escape_char_into(out: &mut String, c: char)
    ensures
        final(out)@ == old(out)@ + spec_escape_char(c),
{
    if c == '"' {
        push_char(out, '\\');
        push_char(out, '"');
        assert(out@ =~= old(out)@ + spec_escape_char(c));
    } else if c == '\\' {
        push_char(out, '\\');
        push_char(out, '\\');
        assert(out@ =~= old(out)@ + spec_escape_char(c));
    } else {
        let u = c as u32;
        if u < 32 {
            push_char(out, '\\');
            push_char(out, 'u');
            push_char(out, '0');
            push_char(out, '0');
            push_char(out, hex_char((u / 16) as u8));
            push_char(out, hex_char((u % 16) as u8));
            assert(out@ =~= old(out)@ + spec_escape_char(c));
        } else {
            push_char(out, c);
            assert(out@ =~= old(out)@ + spec_escape_char(c));
        }
    }
}

/// Appends the JSON string literal for `s`.
fn encode_string_into(out: &mut String, s: &String)
    ensures
        final(out)@ == old(out)@ + spec_encode_string(s@),
{
    push_char(out, '"');
    let n = s.as_str().unicode_len();
    let mut i: usize = 0;
    while i < n
        invariant
            0 <= i <= n,
            n == s@.len(),
            out@ =~= old(out)@ + seq!['"'] + spec_escape(s@.take(i as int)),
        decreases n - i,
    {
        let c = s.as_str().get_char(i);
        escape_char_into(out, c);
        proof {
            lemma_escape_take_step(s@, i as int);
        }
        i = i + 1;
    }
    proof {
        assert(s@.take(n as int) =~= s@);
    }
    push_char(out, '"');
    assert(out@ =~= old(out)@ + spec_encode_string(s@));
}

/// Escaping one more character extends the escaped prefix by that
/// character's escape.
proof fn lemma_escape_take_step(s: Seq<char>, i: int)
    requires
        0 <= i < s.len(),
    ensures
        spec_escape(s.take(i + 1)) == spec_escape(s.take(i)) + spec_escape_char(s[i]),
    decreases i,
{
    if i == 0 {
        assert(s.take(1).len() == 1);
        assert(s.take(1)[0] == s[0]);
        assert(s.take(1).skip(1) =~= Seq::<char>::empty());
        assert(spec_escape(Seq::<char>::empty()) =~= Seq::<char>::empty());
        assert(spec_escape(s.take(1)) =~= spec_escape_char(s[0]));
        assert(spec_escape(s.take(0)) =~= Seq::<char>::empty());
        assert(spec_escape(s.take(0)) + spec_escape_char(s[0]) =~= spec_escape_char(s[0]));
    } else {
        let t = s.skip(1);
        lemma_escape_take_step(t, i - 1);
        assert(s.take(i + 1)[0] == s[0]);
        assert(s.take(i + 1).skip(1) =~= t.take(i));
        assert(s.take(i).skip(1) =~= t.take(i - 1));
        assert(s.take(i)[0] == s[0]);
        assert(t.take(i - 1 + 1) =~= t.take(i));
        assert(t[i - 1] == s[i]);
        assert(spec_escape(s.take(i + 1)) == spec_escape_char(s[0]) + spec_escape(t.take(i)));
        assert(spec_escape(s.take(i)) == spec_escape_char(s[0]) + spec_escape(t.take(i - 1)));
        assert(spec_escape_char(s[0]) + (spec_escape(t.take(i - 1)) + spec_escape_char(s[i]))
            =~= (spec_escape_char(s[0]) + spec_escape(t.take(i - 1))) + spec_escape_char(s[i]));
    }
}

/// Appends the JSON object for one installed mod.
fn encode_mod_into(out: &mut String, m: &InstalledMod)
    ensures
        final(out)@ == old(out)@ + spec_encode_mod(m@),
{
    out.append("{\"name\":");
    encode_string_into(out, &m.name);
    out.append(",\"slug\":");
    encode_string_into(out, &m.slug);
    out.append(",\"version\":");
    encode_string_into(out, &m.version);
    out.append("}");
    assert(out@ =~= old(out)@ + spec_encode_mod(m@));
}

/// Appends the JSON array for the installed mods.
fn encode_mods_into(out: &mut String, mods: &Vec<InstalledMod>)
    ensures
        final(out)@ == old(out)@ + spec_encode_mods(mods@.map_values(|m: InstalledMod| m@)),
{
    let ghost views = mods@.map_values(|m: InstalledMod| m@);
    push_char(out, '[');
    if mods.len() == 0 {
        push_char(out, ']');
        assert(out@ =~= old(out)@ + spec_encode_mods(views));
        return ;
    }
    encode_mod_into(out, &mods[0]);
    let mut i: usize = 1;
    while i < mods.len()
        invariant
            1 <= i <= mods.len(),
            views == mods@.map_values(|m: InstalledMod| m@),
            views.len() == mods@.len(),
            out@ =~= old(out)@ + seq!['['] + spec_encode_mod(views[0]) + spec_encode_mods_tail(
                views.skip(1).take(i - 1),
            ),
        decreases mods.len() - i,
    {
        push_char(out, ',');
        encode_mod_into(out, &mods[i]);
        proof {
            lemma_encode_mods_tail_step(views.skip(1), i - 1);
            assert(views.skip(1)[i - 1] == views[i as int]);
        }
        i = i + 1;
    }
    proof {
        assert(views.skip(1).take(mods@.len() - 1) =~= views.skip(1));
    }
    push_char(out, ']');
    assert(out@ =~= old(out)@ + spec_encode_mods(views));
}

/// Encoding one more mod extends the encoded tail by a comma and that mod.
proof fn lemma_encode_mods_tail_step(mods: Seq<InstalledModView>, i: int)
    requires
        0 <= i < mods.len(),
    ensures
        spec_encode_mods_tail(mods.take(i + 1)) == spec_encode_mods_tail(mods.take(i)) + (seq![',']
            + spec_encode_mod(mods[i])),
    decreases i,
{
    if i == 0 {
        assert(mods.take(1)[0] == mods[0]);
        assert(mods.take(1).skip(1) =~= Seq::<InstalledModView>::empty());
        assert(spec_encode_mods_tail(Seq::<InstalledModView>::empty()) =~= Seq::<char>::empty());
        assert(spec_encode_mods_tail(mods.take(1)) =~= seq![','] + spec_encode_mod(mods[0]));
        assert(spec_encode_mods_tail(mods.take(0)) =~= Seq::<char>::empty());
        assert(spec_encode_mods_tail(mods.take(0)) + (seq![','] + spec_encode_mod(mods[0])) =~= seq![
            ',',
        ] + spec_encode_mod(mods[0]));
    } else {
        let t = mods.skip(1);
        lemma_encode_mods_tail_step(t, i - 1);
        assert(mods.take(i + 1)[0] == mods[0]);
        assert(mods.take(i + 1).skip(1) =~= t.take(i));
        assert(mods.take(i).skip(1) =~= t.take(i - 1));
        assert(mods.take(i)[0] == mods[0]);
        assert(t[i - 1] == mods[i]);
        let head = seq![','] + spec_encode_mod(mods[0]);
        assert(spec_encode_mods_tail(mods.take(i + 1)) == head + spec_encode_mods_tail(t.take(i)));
        assert(spec_encode_mods_tail(mods.take(i)) == head + spec_encode_mods_tail(t.take(i - 1)));
        assert(head + (spec_encode_mods_tail(t.take(i - 1)) + (seq![','] + spec_encode_mod(
            mods[i],
        ))) =~= (head + spec_encode_mods_tail(t.take(i - 1))) + (seq![','] + spec_encode_mod(
            mods[i],
        )));
    }
}

// ---------------------------------------------------------------------------
// The grammar the parser accepts, as mathematical functions. Each function
// consumes a prefix of its input and returns the value read together with the
// remaining suffix, or nothing when the input does not follow the grammar.
// ---------------------------------------------------------------------------
/// The character a short escape code stands for.
pub open spec fn spec_unescape_short(e: char) -> Option<char> {
    if e == '"' {
        Some('"')
    } else if e == '\\' {
        Some('\\')
    } else if e == '/' {
        Some('/')
    } else if e == 'b' {
        Some('\u{8}')
    } else if e == 'f' {
        Some('\u{c}')
    } else if e == 'n' {
        Some('\n')
    } else if e == 'r' {
        Some('\r')
    } else if e == 't' {
        Some('\t')
    } else {
        None
    }
}

/// The hexadecimal digits accepted in a `\u00XX` escape.
pub open spec fn is_hex_digit(c: char) -> bool {
    is_ascii_digit(c) || 97 <= c as u32 <= 102
}

/// The numeric value of an accepted hexadecimal digit.
pub open spec fn hex_value(c: char) -> int {
    if is_ascii_digit(c) {
        digit_value(c)
    } else {
        c as u32 - 87
    }
}

/// Reads string content up to and including the closing quote.
pub open spec fn spec_parse_string_content(s: Seq<char>) -> Option<(Seq<char>, Seq<char>)>
    decreases s.len(),
{
    if s.len() == 0 {
        None
    } else if s[0] == '"' {
        Some((Seq::empty(), s.skip(1)))
    } else if s[0] == '\\' {
        if s.len() < 2 {
            None
        } else if s[1] == 'u' {
            if s.len() >= 6 && s[2] == '0' && s[3] == '0' && is_hex_digit(s[4]) && is_hex_digit(
                s[5],
            ) {
                let c = ((16 * hex_value(s[4]) + hex_value(s[5])) as u8) as char;
                match spec_parse_string_content(s.skip(6)) {
                    Some(p) => Some((seq![c] + p.0, p.1)),
                    None => None,
                }
            } else {
                None
            }
        } else {
            match spec_unescape_short(s[1]) {
                Some(c) => match spec_parse_string_content(s.skip(2)) {
                    Some(p) => Some((seq![c] + p.0, p.1)),
                    None => None,
                },
                None => None,
            }
        }
    } else if (s[0] as u32) < 32 {
        None
    } else {
        match spec_parse_string_content(s.skip(1)) {
            Some(p) => Some((seq![s[0]] + p.0, p.1)),
            None => None,
        }
    }
}

/// Reads a JSON string literal: opening quote, content, closing quote.
pub open spec fn spec_parse_string(s: Seq<char>) -> Option<(Seq<char>, Seq<char>)> {
    if s.len() >= 1 && s[0] == '"' {
        spec_parse_string_content(s.skip(1))
    } else {
        None
    }
}

/// Consumes the exact characters of `lit`.
pub open spec fn spec_expect(s: Seq<char>, lit: Seq<char>) -> Option<Seq<char>> {
    if lit.len() <= s.len() && s.take(lit.len() as int) == lit {
        Some(s.skip(lit.len() as int))
    } else {
        None
    }
}

/// Reads the JSON object for one installed mod.
pub open spec fn spec_parse_mod(s: Seq<char>) -> Option<(InstalledModView, Seq<char>)> {
    match spec_expect(s, "{\"name\":"@) {
        Some(s1) => match spec_parse_string(s1) {
            Some((name, s2)) => match spec_expect(s2, ",\"slug\":"@) {
                Some(s3) => match spec_parse_string(s3) {
                    Some((slug, s4)) => match spec_expect(s4, ",\"version\":"@) {
                        Some(s5) => match spec_parse_string(s5) {
                            Some((version, s6)) => match spec_expect(s6, "}"@) {
                                Some(s7) => Some(
                                    (InstalledModView { name, slug, version }, s7),
                                ),
                                None => None,
                            },
                            None => None,
                        },
                        None => None,
                    },
                    None => None,
                },
                None => None,
            },
            None => None,
        },
        None => None,
    }
}

/// After one mod has been read: either the closing bracket, or a comma and
/// another mod, repeatedly.
pub open spec fn spec_parse_mods_tail(s: Seq<char>) -> Option<(Seq<InstalledModView>, Seq<char>)>
    decreases s.len(),
{
    if s.len() == 0 {
        None
    } else if s[0] == ']' {
        Some((Seq::empty(), s.skip(1)))
    } else if s[0] == ',' {
        match spec_parse_mod(s.skip(1)) {
            Some((m, r)) => if r.len() < s.len() {
                match spec_parse_mods_tail(r) {
                    Some((ms, r2)) => Some((seq![m] + ms, r2)),
                    None => None,
                }
            } else {
                None
            },
            None => None,
        }
    } else {
        None
    }
}

/// Reads the JSON array of installed mods.
pub open spec fn spec_parse_mods(s: Seq<char>) -> Option<(Seq<InstalledModView>, Seq<char>)> {
    if s.len() >= 2 && s[0] == '[' && s[1] == ']' {
        Some((Seq::empty(), s.skip(2)))
    } else if s.len() >= 1 && s[0] == '[' {
        match spec_parse_mod(s.skip(1)) {
            Some((m, r)) => if r.len() < s.len() {
                match spec_parse_mods_tail(r) {
                    Some((ms, r2)) => Some((seq![m] + ms, r2)),
                    None => None,
                }
            } else {
                None
            },
            None => None,
        }
    } else {
        None
    }
}

/// Reads a whole lockfile document; the input must be consumed exactly.
pub open spec fn spec_parse_instance(s: Seq<char>) -> Option<MinecraftInstanceView> {
    match spec_expect(s, "{\"loader\":"@) {
        Some(s1) => match spec_parse_string(s1) {
            Some((loader, s2)) => match spec_expect(s2, ",\"minecraft_version\":"@) {
                Some(s3) => match spec_parse_string(s3) {
                    Some((minecraft_version, s4)) => match spec_expect(s4, ",\"mods\":"@) {
                        Some(s5) => match spec_parse_mods(s5) {
                            Some((mods, s6)) => match spec_expect(s6, "}"@) {
                                Some(s7) => if s7.len() == 0 {
                                    Some(
                                        MinecraftInstanceView { loader, minecraft_version, mods },
                                    )
                                } else {
                                    None
                                },
                                None => None,
                            },
                            None => None,
                        },
                        None => None,
                    },
                    None => None,
                },
                None => None,
            },
            None => None,
        },
        None => None,
    }
}

// ---------------------------------------------------------------------------
// The executable parser.
// ---------------------------------------------------------------------------
/// The characters of `s`, as an indexable vector.
fn str_chars(s: &str) -> (v: Vec<char>)
    ensures
        v@ == s@,
{
    let n = s.unicode_len();
    let mut v: Vec<char> = Vec::new();
    let mut i: usize = 0;
    while i < n
        invariant
            0 <= i <= n,
            n == s@.len(),
            v@ =~= s@.take(i as int),
        decreases n - i,
    {
        v.push(s.get_char(i));
        assert(v@ =~= s@.take(i as int + 1));
        i = i + 1;
    }
    proof {
        assert(s@.take(n as int) =~= s@);
    }
    v
}

/// The numeric value of `c` as a hexadecimal digit, if it is one.
fn hex_digit_value(c: char) -> (r: Option<u8>)
    ensures
        match r {
            Some(v) => is_hex_digit(c) && v == hex_value(c) && v < 16,
            None => !is_hex_digit(c),
        },
{
    let u = c as u32;
    if 48 <= u && u <= 57 {
        Some((u - 48) as u8)
    } else if 97 <= u && u <= 102 {
        Some((u - 87) as u8)
    } else {
        None
    }
}

/// Consumes the characters of `lit` at position `i`.
fn expect_lit(s: &Vec<char>, i: usize, lit: &str) -> (r: Option<usize>)
    requires
        i <= s@.len(),
    ensures
        match r {
            Some(j) => i <= j <= s@.len() && spec_expect(s@.skip(i as int), lit@) == Some(
                s@.skip(j as int),
            ),
            None => spec_expect(s@.skip(i as int), lit@) is None,
        },
{
    let m = lit.unicode_len();
    if s.len() - i < m {
        return None;
    }
    let mut k: usize = 0;
    while k < m
        invariant
            0 <= k <= m,
            i + m <= s@.len() <= usize::MAX,
            m == lit@.len(),
            forall|t: int| 0 <= t < k ==> s@[i + t] == lit@[t],
        decreases m - k,
    {
        assert(i + k < s@.len());
        if s[i + k] != lit.get_char(k) {
            proof {
                assert(s@.skip(i as int).take(m as int)[k as int] != lit@[k as int]);
            }
            return None;
        }
        k = k + 1;
    }
    proof {
        assert(s@.skip(i as int).take(m as int) =~= lit@);
        assert(s@.skip(i as int).skip(m as int) =~= s@.skip(i as int + m));
    }
    Some(i + m)
}

/// Reads a JSON string literal at position `i`.
fn parse_string_at(s: &Vec<char>, i: usize) -> (r: Option<(String, usize)>)
    requires
        i <= s@.len(),
    ensures
        match r {
            Some(p) => i <= p.1 <= s@.len() && spec_parse_string(s@.skip(i as int)) == Some(
                (p.0@, s@.skip(p.1 as int)),
            ),
            None => spec_parse_string(s@.skip(i as int)) is None,
        },
{
    if i >= s.len() || s[i] != '"' {
        return None;
    }
    let mut acc = String::new();
    let mut j = i + 1;
    assert(s@.skip(i as int).skip(1) =~= s@.skip(i as int + 1));
    loop
        invariant
            i + 1 <= j <= s@.len(),
            ({
                match spec_parse_string_content(s@.skip(j as int)) {
                    Some(p) => spec_parse_string_content(s@.skip(i as int + 1)) == Some(
                        (acc@ + p.0, p.1),
                    ),
                    None => spec_parse_string_content(s@.skip(i as int + 1)) is None,
                }
            }),
            spec_parse_string(s@.skip(i as int)) == spec_parse_string_content(
                s@.skip(i as int + 1),
            ),
        decreases s@.len() - j,
    {
        if j >= s.len() {
            return None;
        }
        let c = s[j];
        assert(s@.skip(j as int)[0] == c);
        if c == '"' {
            proof {
                assert(s@.skip(j as int).skip(1) =~= s@.skip(j as int + 1));
                assert(acc@ + Seq::<char>::empty() =~= acc@);
            }
            return Some((acc, j + 1));
        } else if c == '\\' {
            if j + 1 >= s.len() {
                proof {
                    assert(s@.skip(j as int).len() < 2);
                }
                return None;
            }
            let e = s[j + 1];
            assert(s@.skip(j as int)[1] == e);
            if e == 'u' {
                if s.len() - j < 6 {
                    return None;
                }
                if s[j + 2] != '0' || s[j + 3] != '0' {
                    proof {
                        assert(s@.skip(j as int)[2] == s@[j as int + 2]);
                        assert(s@.skip(j as int)[3] == s@[j as int + 3]);
                    }
                    return None;
                }
                assert(s@.skip(j as int)[4] == s@[j as int + 4]);
                assert(s@.skip(j as int)[5] == s@[j as int + 5]);
                let h1 = match hex_digit_value(s[j + 4]) {
                    Some(v) => v,
                    None => {
                        return None;
                    },
                };
                let h2 = match hex_digit_value(s[j + 5]) {
                    Some(v) => v,
                    None => {
                        return None;
                    },
                };
                let code: u32 = 16 * (h1 as u32) + (h2 as u32);
                let c2: char = (code as u8) as char;
                let ghost old_acc = acc@;
                push_char(&mut acc, c2);
                proof {
                    assert(s@.skip(j as int).skip(6) =~= s@.skip(j as int + 6));
                    if let Some(p) = spec_parse_string_content(s@.skip(j as int + 6)) {
                        assert(old_acc + (seq![c2] + p.0) =~= acc@ + p.0);
                    }
                }
                j = j + 6;
            } else {
                let c2: char = if e == '"' {
                    '"'
                } else if e == '\\' {
                    '\\'
                } else if e == '/' {
                    '/'
                } else if e == 'b' {
                    '\u{8}'
                } else if e == 'f' {
                    '\u{c}'
                } else if e == 'n' {
                    '\n'
                } else if e == 'r' {
                    '\r'
                } else if e == 't' {
                    '\t'
                } else {
                    return None;
                };
                assert(spec_unescape_short(e) == Some(c2));
                let ghost old_acc = acc@;
                push_char(&mut acc, c2);
                proof {
                    assert(s@.skip(j as int).skip(2) =~= s@.skip(j as int + 2));
                    if let Some(p) = spec_parse_string_content(s@.skip(j as int + 2)) {
                        assert(old_acc + (seq![c2] + p.0) =~= acc@ + p.0);
                    }
                }
                j = j + 2;
            }
        } else {
            let u = c as u32;
            if u < 32 {
                return None;
            }
            let ghost old_acc = acc@;
            push_char(&mut acc, c);
            proof {
                assert(s@.skip(j as int).skip(1) =~= s@.skip(j as int + 1));
                if let Some(p) = spec_parse_string_content(s@.skip(j as int + 1)) {
                    assert(old_acc + (seq![c] + p.0) =~= acc@ + p.0);
                }
            }
            j = j + 1;
        }
    }
}

/// Reads one installed-mod object at position `i`.
fn parse_mod_at(s: &Vec<char>, i: usize) -> (r: Option<(InstalledMod, usize)>)
    requires
        i <= s@.len(),
    ensures
        match r {
            Some(p) => i <= p.1 <= s@.len() && spec_parse_mod(s@.skip(i as int)) == Some(
                (p.0@, s@.skip(p.1 as int)),
            ),
            None => spec_parse_mod(s@.skip(i as int)) is None,
        },
{
    let j1 = match expect_lit(s, i, "{\"name\":") {
        Some(j) => j,
        None => {
            return None;
        },
    };
    let (name, j2) = match parse_string_at(s, j1) {
        Some(p) => p,
        None => {
            return None;
        },
    };
    let j3 = match expect_lit(s, j2, ",\"slug\":") {
        Some(j) => j,
        None => {
            return None;
        },
    };
    let (slug, j4) = match parse_string_at(s, j3) {
        Some(p) => p,
        None => {
            return None;
        },
    };
    let j5 = match expect_lit(s, j4, ",\"version\":") {
        Some(j) => j,
        None => {
            return None;
        },
    };
    let (version, j6) = match parse_string_at(s, j5) {
        Some(p) => p,
        None => {
            return None;
        },
    };
    let j7 = match expect_lit(s, j6, "}") {
        Some(j) => j,
        None => {
            return None;
        },
    };
    Some((InstalledMod { name, slug, version }, j7))
}

/// Reads the array of installed mods at position `i`.
fn parse_mods_at(s: &Vec<char>, i: usize) -> (r: Option<(Vec<InstalledMod>, usize)>)
    requires
        i <= s@.len(),
    ensures
        match r {
            Some(p) => i <= p.1 <= s@.len() && spec_parse_mods(s@.skip(i as int)) == Some(
                (p.0@.map_values(|m: InstalledMod| m@), s@.skip(p.1 as int)),
            ),
            None => spec_parse_mods(s@.skip(i as int)) is None,
        },
{
    if i >= s.len() || s[i] != '[' {
        assert(s@.skip(i as int).len() >= 1 ==> s@.skip(i as int)[0] == s@[i as int]);
        return None;
    }
    assert(s@.skip(i as int)[0] == '[');
    if i + 1 < s.len() && s[i + 1] == ']' {
        assert(s@.skip(i as int)[1] == ']');
        let mods: Vec<InstalledMod> = Vec::new();
        proof {
            assert(s@.skip(i as int).skip(2) =~= s@.skip(i as int + 2));
            assert(mods@.map_values(|m: InstalledMod| m@) =~= Seq::<InstalledModView>::empty());
        }
        return Some((mods, i + 2));
    }
    assert(s@.skip(i as int).len() >= 2 ==> s@.skip(i as int)[1] != ']');
    let ghost whole = s@.skip(i as int);
    assert(s@.skip(i as int).skip(1) =~= s@.skip(i as int + 1));
    let (first, mut j) = match parse_mod_at(s, i + 1) {
        Some(p) => p,
        None => {
            proof {
                if whole.len() >= 2 && whole[1] == ']' {
                    assert(spec_parse_mod(whole.skip(1)) is None);
                }
            }
            return None;
        },
    };
    let mut mods: Vec<InstalledMod> = Vec::new();
    mods.push(first);
    proof {
        assert(spec_parse_mod(whole.skip(1)) is Some);
        assert(whole.skip(1) =~= s@.skip(i as int + 1));
    }
    loop
        invariant
            i < j <= s@.len(),
            whole == s@.skip(i as int),
            whole.len() >= 1 && whole[0] == '[',
            !(whole.len() >= 2 && whole[1] == ']'),
            mods@.len() >= 1,
            ({
                match spec_parse_mods_tail(s@.skip(j as int)) {
                    Some(p) => spec_parse_mods(whole) == Some(
                        (mods@.map_values(|m: InstalledMod| m@) + p.0, p.1),
                    ),
                    None => spec_parse_mods(whole) is None,
                }
            }),
        decreases s@.len() - j,
    {
        if j >= s.len() {
            return None;
        }
        let c = s[j];
        assert(s@.skip(j as int)[0] == c);
        if c == ']' {
            proof {
                assert(s@.skip(j as int).skip(1) =~= s@.skip(j as int + 1));
                let views = mods@.map_values(|m: InstalledMod| m@);
                assert(views + Seq::<InstalledModView>::empty() =~= views);
            }
            return Some((mods, j + 1));
        } else if c == ',' {
            assert(s@.skip(j as int).skip(1) =~= s@.skip(j as int + 1));
            let (m, j2) = match parse_mod_at(s, j + 1) {
                Some(p) => p,
                None => {
                    return None;
                },
            };
            let ghost old_views = mods@.map_values(|m0: InstalledMod| m0@);
            mods.push(m);
            proof {
                assert(s@.skip(j2 as int).len() < s@.skip(j as int).len());
                if let Some(p) = spec_parse_mods_tail(s@.skip(j2 as int)) {
                    assert(mods@.map_values(|m0: InstalledMod| m0@) =~= old_views.push(m@));
                    assert(old_views + (seq![m@] + p.0) =~= old_views.push(m@) + p.0);
                }
            }
            j = j2;
        } else {
            return None;
        }
    }
}

/// Reads a whole lockfile document: the manifest it denotes, or a decode
/// error when `text` does not follow the canonical lockfile grammar.
pub fn parse_instance(text: &str) -> (r: Result<MinecraftInstance, McpmDataError>)
    ensures
        match r {
            Ok(inst) => spec_parse_instance(text@) == Some(inst@),
            Err(e) => spec_parse_instance(text@) is None && e is JsonError,
        },
{
    let s = str_chars(text);
    assert(s@.skip(0) =~= text@);
    let err_msg = "the lockfile is not a valid manifest document";
    match parse_instance_chars(&s) {
        Some(inst) => Ok(inst),
        None => Err(McpmDataError::JsonError(String::from_str(err_msg))),
    }
}

/// Reads a whole lockfile document from a character vector.
fn parse_instance_chars(s: &Vec<char>) -> (r: Option<MinecraftInstance>)
    ensures
        match r {
            Some(inst) => spec_parse_instance(s@) == Some(inst@),
            None => spec_parse_instance(s@) is None,
        },
{
    assert(s@.skip(0) =~= s@);
    let j1 = match expect_lit(s, 0, "{\"loader\":") {
        Some(j) => j,
        None => {
            return None;
        },
    };
    let (loader, j2) = match parse_string_at(s, j1) {
        Some(p) => p,
        None => {
            return None;
        },
    };
    let j3 = match expect_lit(s, j2, ",\"minecraft_version\":") {
        Some(j) => j,
        None => {
            return None;
        },
    };
    let (minecraft_version, j4) = match parse_string_at(s, j3) {
        Some(p) => p,
        None => {
            return None;
        },
    };
    let j5 = match expect_lit(s, j4, ",\"mods\":") {
        Some(j) => j,
        None => {
            return None;
        },
    };
    let (mods, j6) = match parse_mods_at(s, j5) {
        Some(p) => p,
        None => {
            return None;
        },
    };
    let j7 = match expect_lit(s, j6, "}") {
        Some(j) => j,
        None => {
            return None;
        },
    };
    if j7 != s.len() {
        assert(s@.skip(j7 as int).len() != 0);
        return None;
    }
    assert(s@.skip(j7 as int).len() == 0);
    Some(MinecraftInstance { loader, minecraft_version, mods })
}

// ---------------------------------------------------------------------------
// Round trip: parsing a canonical document gives back the manifest that was
// encoded.
// ---------------------------------------------------------------------------
/// The hexadecimal digit characters the encoder writes are read back with
/// their value.
proof fn lemma_hex_char_value(v: int)
    requires
        0 <= v < 16,
    ensures
        is_hex_digit(spec_hex_char(v)),
        hex_value(spec_hex_char(v)) == v,
{
}

/// Consuming a literal that stands at the front of the input leaves exactly
/// what follows it.
proof fn lemma_expect_concat(lit: Seq<char>, rest: Seq<char>)
    ensures
        spec_expect(lit + rest, lit) == Some(rest),
{
    let s = lit + rest;
    assert(s.take(lit.len() as int) =~= lit);
    assert(s.skip(lit.len() as int) =~= rest);
}

/// Escaped string content followed by a closing quote parses back to the
/// original characters.
proof fn lemma_parse_content_roundtrip(s: Seq<char>, rest: Seq<char>)
    ensures
        spec_parse_string_content(spec_escape(s) + seq!['"'] + rest) == Some((s, rest)),
    decreases s.len(),
{
    let input = spec_escape(s) + seq!['"'] + rest;
    if s.len() == 0 {
        assert(spec_escape(s) =~= Seq::<char>::empty());
        assert(input[0] == '"');
        assert(input.skip(1) =~= rest);
        assert(s =~= Seq::<char>::empty());
    } else {
        let c = s[0];
        let ec = spec_escape_char(c);
        let tail_input = spec_escape(s.skip(1)) + seq!['"'] + rest;
        assert(input =~= ec + tail_input);
        lemma_parse_content_roundtrip(s.skip(1), rest);
        if c == '"' {
            assert(input[0] == '\\' && input[1] == '"');
            assert(input.skip(2) =~= tail_input);
            assert(seq![c] + s.skip(1) =~= s);
        } else if c == '\\' {
            assert(input[0] == '\\' && input[1] == '\\');
            assert(input.skip(2) =~= tail_input);
            assert(seq![c] + s.skip(1) =~= s);
        } else if (c as u32) < 32 {
            let v = c as u32 as int;
            assert(input[0] == '\\' && input[1] == 'u' && input[2] == '0' && input[3] == '0');
            assert(input[4] == spec_hex_char(v / 16) && input[5] == spec_hex_char(v % 16));
            lemma_hex_char_value(v / 16);
            lemma_hex_char_value(v % 16);
            vstd::arithmetic::div_mod::lemma_fundamental_div_mod(v, 16);
            assert(16 * hex_value(input[4]) + hex_value(input[5]) == v);
            vstd::utf8::char_u32_cast(c, c as u32);
            assert(((c as u32) as char) == c);
            assert((v as u8) as u32 == c as u32);
            assert(((v as u8) as char) == c);
            assert(input.skip(6) =~= tail_input);
            assert(seq![c] + s.skip(1) =~= s);
        } else {
            assert(input[0] == c);
            assert(input.skip(1) =~= tail_input);
            assert(seq![c] + s.skip(1) =~= s);
        }
    }
}

/// An encoded string literal parses back to the original characters.
proof fn lemma_parse_string_roundtrip(s: Seq<char>, rest: Seq<char>)
    ensures
        spec_parse_string(spec_encode_string(s) + rest) == Some((s, rest)),
{
    let input = spec_encode_string(s) + rest;
    assert(input[0] == '"');
    assert(input.skip(1) =~= spec_escape(s) + seq!['"'] + rest);
    lemma_parse_content_roundtrip(s, rest);
}

/// An encoded installed-mod object parses back to the original record.
proof fn lemma_parse_mod_roundtrip(m: InstalledModView, rest: Seq<char>)
    ensures
        spec_parse_mod(spec_encode_mod(m) + rest) == Some((m, rest)),
{
    let input = spec_encode_mod(m) + rest;
    let r5 = "}"@ + rest;
    let r4 = spec_encode_string(m.version) + r5;
    let r3 = ",\"version\":"@ + r4;
    let r2 = spec_encode_string(m.slug) + r3;
    let r1 = ",\"slug\":"@ + r2;
    let r0 = spec_encode_string(m.name) + r1;
    assert(input =~= "{\"name\":"@ + r0);
    lemma_expect_concat("{\"name\":"@, r0);
    lemma_parse_string_roundtrip(m.name, r1);
    lemma_expect_concat(",\"slug\":"@, r2);
    lemma_parse_string_roundtrip(m.slug, r3);
    lemma_expect_concat(",\"version\":"@, r4);
    lemma_parse_string_roundtrip(m.version, r5);
    lemma_expect_concat("}"@, rest);
}

/// The encoded tail of a mods array (comma-separated mods, then the closing
/// bracket) parses back to the original records.
#[verifier::rlimit(50)]
proof fn lemma_parse_mods_tail_roundtrip(mods: Seq<InstalledModView>, rest: Seq<char>)
    ensures
        spec_parse_mods_tail(spec_encode_mods_tail(mods) + seq![']'] + rest) == Some((mods, rest)),
    decreases mods.len(),
{
    let input = spec_encode_mods_tail(mods) + seq![']'] + rest;
    if mods.len() == 0 {
        assert(spec_encode_mods_tail(mods) =~= Seq::<char>::empty());
        assert(input[0] == ']');
        assert(input.skip(1) =~= rest);
        assert(mods =~= Seq::<InstalledModView>::empty());
    } else {
        let r = spec_encode_mods_tail(mods.skip(1)) + seq![']'] + rest;
        assert(input =~= seq![','] + (spec_encode_mod(mods[0]) + r));
        assert(input[0] == ',');
        assert(input.skip(1) =~= spec_encode_mod(mods[0]) + r);
        lemma_parse_mod_roundtrip(mods[0], r);
        assert(r.len() < input.len());
        lemma_parse_mods_tail_roundtrip(mods.skip(1), rest);
        assert(seq![mods[0]] + mods.skip(1) =~= mods);
    }
}

/// An encoded mods array parses back to the original records.
#[verifier::rlimit(50)]
proof fn lemma_parse_mods_roundtrip(mods: Seq<InstalledModView>, rest: Seq<char>)
    ensures
        spec_parse_mods(spec_encode_mods(mods) + rest) == Some((mods, rest)),
{
    let input = spec_encode_mods(mods) + rest;
    if mods.len() == 0 {
        assert(input[0] == '[' && input[1] == ']');
        assert(input.skip(2) =~= rest);
        assert(mods =~= Seq::<InstalledModView>::empty());
    } else {
        let r = spec_encode_mods_tail(mods.skip(1)) + seq![']'] + rest;
        assert(input =~= seq!['['] + (spec_encode_mod(mods[0]) + r));
        assert(input[0] == '[');
        reveal_strlit("{\"name\":");
        assert(spec_encode_mod(mods[0])[0] == '{');
        assert(input[1] == '{');
        lemma_parse_mod_roundtrip(mods[0], r);
        assert(input.skip(1) =~= spec_encode_mod(mods[0]) + r);
        assert(r.len() < input.len());
        lemma_parse_mods_tail_roundtrip(mods.skip(1), rest);
        assert(seq![mods[0]] + mods.skip(1) =~= mods);
    }
}

/// Serialization round trip: parsing the canonical document written for a
/// manifest gives back exactly that manifest's logical content.
pub proof fn lemma_lockfile_roundtrip(v: MinecraftInstanceView)
    ensures
        spec_parse_instance(spec_encode_instance(v)) == Some(v),
{
    let input = spec_encode_instance(v);
    let r4 = "}"@;
    let r3 = spec_encode_mods(v.mods) + r4;
    let r2 = ",\"mods\":"@ + r3;
    let r1 = spec_encode_string(v.minecraft_version) + r2;
    let r0 = ",\"minecraft_version\":"@ + r1;
    let rn = spec_encode_string(v.loader) + r0;
    assert(input =~= "{\"loader\":"@ + rn);
    lemma_expect_concat("{\"loader\":"@, rn);
    lemma_parse_string_roundtrip(v.loader, r0);
    lemma_expect_concat(",\"minecraft_version\":"@, r1);
    lemma_parse_string_roundtrip(v.minecraft_version, r2);
    lemma_expect_concat(",\"mods\":"@, r3);
    lemma_parse_mods_roundtrip(v.mods, r4);
    assert(r4 =~= "}"@ + Seq::<char>::empty());
    lemma_expect_concat("}"@, Seq::<char>::empty());
    assert(MinecraftInstanceView {
        loader: v.loader,
        minecraft_version: v.minecraft_version,
        mods: v.mods,
    } == v);
}

/// The canonical lockfile document for a manifest: what `save` writes.
pub fn encode_instance(inst: &MinecraftInstance) -> (r: String)
    ensures
        r@ == spec_encode_instance(inst@),
{
    let mut out = String::new();
    out.append("{\"loader\":");
    encode_string_into(&mut out, &inst.loader);
    out.append(",\"minecraft_version\":");
    encode_string_into(&mut out, &inst.minecraft_version);
    out.append(",\"mods\":");
    encode_mods_into(&mut out, &inst.mods);
    out.append("}");
    assert(out@ =~= spec_encode_instance(inst@));
    out
}

} // verus!
