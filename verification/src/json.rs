//! JSON string escaping, exactly as the engine frames outgoing
//! messages: quotes and backslashes escape with a backslash, control
//! characters as `\u00XX`, and everything else stands as itself.

use vstd::prelude::*;
use crate::strutil::push_char;

verus! {

/// Lower-case hex digit of a value below sixteen.
pub open spec fn spec_hex_char(d: int) -> char
    recommends
        0 <= d < 16,
{
    if d < 10 {
        (((48 + d) as u8) as char)
    } else {
        (((87 + d) as u8) as char)
    }
}

/// The escape of one character inside a JSON string literal.
pub open spec fn spec_escape_char(c: char) -> Seq<char> {
    if c == '"' {
        seq!['\\', '"']
    } else if c == '\\' {
        seq!['\\', '\\']
    } else if (c as u32) < 32 {
        seq!['\\', 'u', '0', '0', spec_hex_char(c as u32 as int / 16), spec_hex_char(
            c as u32 as int % 16,
        )]
    } else {
        seq![c]
    }
}

/// The escaped body of a JSON string literal.
pub open spec fn spec_escape(s: Seq<char>) -> Seq<char>
    decreases s.len(),
{
    if s.len() == 0 {
        Seq::empty()
    } else {
        spec_escape(s.drop_last()) + spec_escape_char(s.last())
    }
}

/// Append the escaped body of `s` to a JSON text under construction.
pub fn push_escaped(out: &mut String, s: &str)
    ensures
        final(out)@ == old(out)@ + spec_escape(s@),
{
    let n = s.unicode_len();
    let mut i: usize = 0;
    proof {
        assert(old(out)@ + spec_escape(s@.take(0)) =~= old(out)@);
    }
    while i < n
        invariant
            n == s@.len(),
            i <= n,
            out@ == old(out)@ + spec_escape(s@.take(i as int)),
        decreases n - i,
    {
        let c = s.get_char(i);
        let u = c as u32;
        if c == '"' {
            push_char(out, '\\');
            push_char(out, '"');
        } else if c == '\\' {
            push_char(out, '\\');
            push_char(out, '\\');
        } else if u < 32 {
            push_char(out, '\\');
            push_char(out, 'u');
            push_char(out, '0');
            push_char(out, '0');
            let hi = (u / 16) as u8;
            let lo = (u % 16) as u8;
            push_char(
                out,
                if hi < 10 {
                    ((48 + hi) as char)
                } else {
                    ((87 + hi) as char)
                },
            );
            push_char(
                out,
                if lo < 10 {
                    ((48 + lo) as char)
                } else {
                    ((87 + lo) as char)
                },
            );
        } else {
            push_char(out, c);
        }
        proof {
            assert(s@.take(i + 1).drop_last() =~= s@.take(i as int));
            assert(s@.take(i + 1).last() == s@[i as int]);
            assert(out@ =~= old(out)@ + spec_escape(s@.take(i + 1)));
        }
        i += 1;
    }
    proof {
        assert(s@.take(n as int) =~= s@);
    }
}

/// Append a whole JSON string literal: a quote, the escaped body, a
/// quote.
pub fn push_json_string(out: &mut String, s: &str)
    ensures
        final(out)@ == old(out)@ + seq!['"'] + spec_escape(s@) + seq!['"'],
{
    push_char(out, '"');
    push_escaped(out, s);
    push_char(out, '"');
}

/// The value of a lower-case hex digit, or a negative marker for any
/// other character.
pub open spec fn spec_hex_val(c: char) -> int {
    if 48 <= c as u32 <= 57 {
        c as u32 - 48
    } else if 97 <= c as u32 <= 102 {
        c as u32 - 87
    } else {
        -1
    }
}

/// Read a JSON string body starting inside the quotes at `pos`: the
/// unescaped text and the position after the closing quote, or
/// nothing for a malformed literal.
pub open spec fn spec_scan_string(t: Seq<char>, pos: int) -> Option<(Seq<char>, int)>
    decreases t.len() - pos,
{
    if pos < 0 || pos >= t.len() {
        None
    } else if t[pos] == '"' {
        Some((Seq::empty(), pos + 1))
    } else if t[pos] == '\\' {
        if pos + 1 < t.len() && (t[pos + 1] == '"' || t[pos + 1] == '\\') {
            match spec_scan_string(t, pos + 2) {
                Some(rest) => Some((seq![t[pos + 1]] + rest.0, rest.1)),
                None => None,
            }
        } else if pos + 5 < t.len() && t[pos + 1] == 'u' && t[pos + 2] == '0' && t[pos + 3] == '0'
            && spec_hex_val(t[pos + 4]) >= 0 && spec_hex_val(t[pos + 5]) >= 0 {
            match spec_scan_string(t, pos + 6) {
                Some(rest) => Some(
                    (
                        seq![
                            (((spec_hex_val(t[pos + 4]) * 16 + spec_hex_val(t[pos + 5])) as u8)
                                as char)
                        ] + rest.0,
                        rest.1,
                    ),
                ),
                None => None,
            }
        } else {
            None
        }
    } else {
        match spec_scan_string(t, pos + 1) {
            Some(rest) => Some((seq![t[pos]] + rest.0, rest.1)),
            None => None,
        }
    }
}

/// Read a JSON string body at `pos`, returning the unescaped text and
/// the position after the closing quote.
pub fn scan_string(s: &str, pos: usize) -> (r: Option<(String, usize)>)
    requires
        pos <= s@.len(),
    ensures
        r matches Some(p) ==> spec_scan_string(s@, pos as int) == Some((p.0@, p.1 as int))
            && p.1 <= s@.len(),
        r is None ==> spec_scan_string(s@, pos as int) is None,
{
    let n = s.unicode_len();
    let mut i: usize = pos;
    let mut acc = String::new();
    loop
        invariant
            n == s@.len(),
            pos <= i <= n,
            spec_scan_string(s@, pos as int) is Some <==> spec_scan_string(s@, i as int) is Some,
            spec_scan_string(s@, i as int) matches Some(p) ==> spec_scan_string(s@, pos as int)
                == Some((acc@ + p.0, p.1)),
        decreases n - i,
    {
        if i >= n {
            return None;
        }
        let c = s.get_char(i);
        if c == '"' {
            proof {
                assert(acc@ + Seq::<char>::empty() =~= acc@);
            }
            return Some((acc, i + 1));
        }
        if c == '\\' {
            if i + 1 < n {
                let e = s.get_char(i + 1);
                if e == '"' || e == '\\' {
                    push_char(&mut acc, e);
                    proof {
                        let o = spec_scan_string(s@, i + 2);
                        if o is Some {
                            let p = o->Some_0;
                            assert(acc@.drop_last() + (seq![e] + p.0) =~= acc@ + p.0);
                        }
                    }
                    i += 2;
                    continue;
                }
                if e == 'u' && n - i > 5 {
                    let d2 = s.get_char(i + 2);
                    let d3 = s.get_char(i + 3);
                    let h1 = s.get_char(i + 4);
                    let h2 = s.get_char(i + 5);
                    let hv1 = hex_val_of(h1);
                    let hv2 = hex_val_of(h2);
                    if d2 == '0' && d3 == '0' && hv1 >= 0 && hv2 >= 0 {
                        let decoded: char = (((hv1 * 16 + hv2) as u8) as char);
                        push_char(&mut acc, decoded);
                        proof {
                            let o = spec_scan_string(s@, i + 6);
                            if o is Some {
                                let p = o->Some_0;
                                assert(acc@.drop_last() + (seq![decoded] + p.0) =~= acc@ + p.0);
                            }
                        }
                        i += 6;
                        continue;
                    }
                }
            }
            return None;
        }
        push_char(&mut acc, c);
        proof {
            let o = spec_scan_string(s@, i + 1);
            if o is Some {
                let p = o->Some_0;
                assert(acc@.drop_last() + (seq![c] + p.0) =~= acc@ + p.0);
            }
        }
        i += 1;
    }
}

/// The numeric value of a lower-case hex digit, negative for any
/// other character.
fn hex_val_of(c: char) -> (r: i32)
    ensures
        r as int == spec_hex_val(c),
{
    let u = c as u32;
    if 48 <= u && u <= 57 {
        (u - 48) as i32
    } else if 97 <= u && u <= 102 {
        (u - 87) as i32
    } else {
        -1
    }
}

/// Escaping distributes over concatenation.
pub proof fn lemma_escape_concat(a: Seq<char>, b: Seq<char>)
    ensures
        spec_escape(a + b) == spec_escape(a) + spec_escape(b),
    decreases b.len(),
{
    if b.len() == 0 {
        assert(a + b =~= a);
        assert(spec_escape(a) + spec_escape(b) =~= spec_escape(a));
    } else {
        lemma_escape_concat(a, b.drop_last());
        assert((a + b).drop_last() =~= a + b.drop_last());
        assert((a + b).last() == b.last());
        assert(spec_escape(a + b) == (spec_escape(a) + spec_escape(b.drop_last()))
            + spec_escape_char(b.last()));
        assert((spec_escape(a) + spec_escape(b.drop_last())) + spec_escape_char(b.last())
            =~= spec_escape(a) + (spec_escape(b.drop_last()) + spec_escape_char(b.last())));
    }
}

/// Scanning inverts escaping: at a position where the text carries the
/// escape of `v`, a closing quote, and anything after, the scan
/// recovers exactly `v` and stops after that quote.
pub proof fn lemma_scan_inverts_escape(v: Seq<char>, t: Seq<char>, pos: int)
    requires
        0 <= pos,
        pos + spec_escape(v).len() + 1 <= t.len(),
        t.subrange(pos, pos + spec_escape(v).len() as int) == spec_escape(v),
        t[pos + spec_escape(v).len() as int] == '"',
    ensures
        spec_scan_string(t, pos) == Some((v, pos + spec_escape(v).len() + 1)),
    decreases v.len(),
{
    let e = spec_escape(v);
    if v.len() == 0 {
        assert(e =~= Seq::<char>::empty());
        assert(t[pos] == '"');
    } else {
        let v0 = v[0];
        let vr = v.drop_first();
        let e0 = spec_escape_char(v0);
        assert(v =~= seq![v0] + vr);
        lemma_escape_concat(seq![v0], vr);
        assert(spec_escape(seq![v0]) =~= e0) by {
            assert(seq![v0].drop_last() =~= Seq::<char>::empty());
            assert(seq![v0].last() == v0);
            assert(spec_escape(Seq::<char>::empty()) + e0 =~= e0);
        }
        assert(e == e0 + spec_escape(vr));
        let erlen = spec_escape(vr).len() as int;
        let pos2 = pos + e0.len() as int;
        assert(forall|k: int|
            0 <= k < e.len() ==> t[pos + k] == (#[trigger] e[k]));
        assert(t.subrange(pos2, pos2 + erlen) =~= spec_escape(vr)) by {
            assert(forall|k: int|
                0 <= k < erlen ==> t.subrange(pos2, pos2 + erlen)[k] == t[pos2 + k] && (
                #[trigger] spec_escape(vr)[k]) == e[e0.len() + k]);
        }
        assert(t[pos2 + erlen] == '"');
        lemma_scan_inverts_escape(vr, t, pos2);
        // The head character reads back as itself through its escape.
        if v0 == '"' {
            assert(e0 =~= seq!['\\', '"']);
            assert(e[0] == '\\' && e[1] == '"');
            assert(t[pos + 0] == e[0] && t[pos + 1] == e[1]);
            assert(t[pos] == '\\' && t[pos + 1] == '"');
            assert(spec_scan_string(t, pos) == Some((seq![t[pos + 1]] + vr, pos2 + erlen + 1)));
            assert(seq![t[pos + 1]] + vr =~= v);
        } else if v0 == '\\' {
            assert(e0 =~= seq!['\\', '\\']);
            assert(e[0] == '\\' && e[1] == '\\');
            assert(t[pos + 0] == e[0] && t[pos + 1] == e[1]);
            assert(t[pos] == '\\' && t[pos + 1] == '\\');
            assert(seq![t[pos + 1]] + vr =~= v);
        } else if (v0 as u32) < 32 {
            assert(e0 =~= seq!['\\', 'u', '0', '0', spec_hex_char(v0 as u32 as int / 16),
                spec_hex_char(v0 as u32 as int % 16)]);
            let h1 = spec_hex_char(v0 as u32 as int / 16);
            let h2 = spec_hex_char(v0 as u32 as int % 16);
            assert(e[0] == '\\' && e[1] == 'u' && e[2] == '0' && e[3] == '0' && e[4] == h1 && e[5]
                == h2);
            assert(t[pos + 0] == e[0] && t[pos + 1] == e[1] && t[pos + 2] == e[2] && t[pos + 3]
                == e[3] && t[pos + 4] == e[4] && t[pos + 5] == e[5]);
            assert(t[pos] == '\\' && t[pos + 1] == 'u' && t[pos + 2] == '0' && t[pos + 3] == '0');
            assert(t[pos + 4] == h1 && t[pos + 5] == h2);
            lemma_hex_val_of_hex_char(v0 as u32 as int / 16);
            lemma_hex_val_of_hex_char(v0 as u32 as int % 16);
            assert(spec_hex_val(h1) * 16 + spec_hex_val(h2) == v0 as u32) by {
                assert((v0 as u32 as int / 16) * 16 + (v0 as u32 as int % 16) == v0 as u32);
            }
            let decoded = (((spec_hex_val(t[pos + 4]) * 16 + spec_hex_val(t[pos + 5])) as u8)
                as char);
            assert(decoded == v0) by {
                lemma_char_from_low_value(v0);
            }
            assert(seq![decoded] + vr =~= v);
        } else {
            assert(e0 =~= seq![v0]);
            assert(e[0] == v0);
            assert(t[pos + 0] == e[0]);
            assert(t[pos] == v0);
            assert(seq![t[pos]] + vr =~= v);
        }
    }
}

proof fn lemma_hex_val_of_hex_char(d: int)
    requires
        0 <= d < 16,
    ensures
        spec_hex_val(spec_hex_char(d)) == d,
{
    if d < 10 {
        lemma_char_u32_of_byte((48 + d) as u8);
    } else {
        lemma_char_u32_of_byte((87 + d) as u8);
    }
}

/// A char built from a byte reads back as that byte's value.
proof fn lemma_char_u32_of_byte(b: u8)
    ensures
        ((b as char) as u32) == b,
{
}

/// A char below 32 survives the cast down to a byte and back.
proof fn lemma_char_from_low_value(c: char)
    requires
        (c as u32) < 32,
    ensures
        (((c as u32) as u8) as char) == c,
{
    vstd::utf8::char_u32_cast(c, c as u32);
    assert(((c as u32) as u8) as u32 == c as u32);
    lemma_char_u32_of_byte((c as u32) as u8);
    vstd::utf8::char_u32_cast((((c as u32) as u8) as char), c as u32);
}

} // verus!
