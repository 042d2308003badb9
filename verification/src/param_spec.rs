//! A parameter row's type string (`"slider:0:2"`, `"spinbox:0:100:5"`, `"choice:a,b"`,
//! `"textpick:x,y"`, `"rgb"`, ...) and its value string: what kind of row they make,
//! and the numbers and options they carry.
use vstd::prelude::*;
use crate::text::{to_chars, split_on, split_ranges, ranges_of_split, chars_eq, chars_to_string, joined,
    lemma_split_joins_back, lemma_split_pieces_lack_sep};
use crate::number::{parse_i32, parse_i32_spec, parse_usize, parse_usize_spec};

verus! {

pub open spec fn starts_with(s: Seq<char>, p: Seq<char>) -> bool {
    p.len() <= s.len() && s.take(p.len() as int) == p
}

/// Whether `v` begins with `p`.
pub fn chars_start_with(v: &Vec<char>, p: &str) -> (r: bool)
    ensures
        r == starts_with(v@, p@),
{
    let pc = to_chars(p);
    if pc.len() > v.len() {
        return false;
    }
    let mut i: usize = 0;
    while i < pc.len()
        invariant
            i <= pc.len() <= v.len(),
            pc@ == p@,
            forall|j: int| 0 <= j < i ==> v@[j] == pc@[j],
        decreases pc.len() - i,
    {
        if v[i] != pc[i] {
            return false;
        }
        i = i + 1;
    }
    proof {
        assert(v@.take(pc@.len() as int) =~= pc@);
    }
    true
}

/// Whether `v` is exactly `p`.
pub fn chars_equal_str(v: &Vec<char>, p: &str) -> (r: bool)
    ensures
        r == (v@ == p@),
{
    let pc = to_chars(p);
    chars_eq(v, &pc)
}

/// A text row, plain (`"text"`) or with a completion picker (`"textpick..."`).
pub open spec fn is_text_row_spec(t: Seq<char>) -> bool {
    t == "text"@ || starts_with(t, "textpick"@)
}

/// Whether a row type is a text row.
pub fn is_text_row(t: &str) -> (r: bool)
    ensures
        r == is_text_row_spec(t@),
{
    let v = to_chars(t);
    chars_equal_str(&v, "text") || chars_start_with(&v, "textpick")
}

/// The `n`-th `:`-separated field of a type string, if it has that many.
pub open spec fn field(t: Seq<char>, n: int) -> Option<Seq<char>> {
    let p = split_on(t, ':');
    if 0 <= n < p.len() { Some(p[n]) } else { None }
}

/// Display decimals of a slider row: the type's 4th field (`slider:min:max:decimals`)
/// read as an unsigned number, 2 when absent or unreadable.
pub open spec fn slider_decimals_spec(t: Seq<char>) -> usize {
    match field(t, 3) {
        Some(f) => match parse_usize_spec(f) {
            Some(d) => d,
            None => 2,
        },
        None => 2,
    }
}

/// The characters of `v` in `[a, b)`.
fn sub_chars(v: &Vec<char>, a: usize, b: usize) -> (r: Vec<char>)
    requires
        a <= b <= v@.len(),
    ensures
        r@ == v@.subrange(a as int, b as int),
{
    let mut r: Vec<char> = Vec::new();
    let mut i: usize = a;
    while i < b
        invariant
            a <= i <= b <= v@.len(),
            r@ == v@.subrange(a as int, i as int),
        decreases b - i,
    {
        r.push(v[i]);
        proof {
            assert(v@.subrange(a as int, i + 1) =~= v@.subrange(a as int, i as int).push(v@[i as int]));
        }
        i = i + 1;
    }
    r
}

/// The `n`-th `:` field of `v`.
fn field_chars(v: &Vec<char>, n: usize) -> (r: Option<Vec<char>>)
    ensures
        match r {
            Some(f) => field(v@, n as int) == Some(f@),
            None => field(v@, n as int) is None,
        },
{
    let ranges = split_ranges(v, ':');
    if n < ranges.len() {
        let (a, b) = ranges[n];
        Some(sub_chars(v, a, b))
    } else {
        None
    }
}

/// The number of `:` fields of `v`.
fn field_count(v: &Vec<char>) -> (r: usize)
    ensures
        r == split_on(v@, ':').len(),
{
    split_ranges(v, ':').len()
}

/// A slider row's display precision.
pub fn slider_decimals(ptype: &str) -> (d: usize)
    ensures
        d == slider_decimals_spec(ptype@),
{
    let v = to_chars(ptype);
    match field_chars(&v, 3) {
        Some(f) => match parse_usize(&f) {
            Some(d) => d,
            None => 2,
        },
        None => 2,
    }
}

/// A spinbox row's (min, max, step): `spinbox:min:max:step`, or `spinbox:min:max`
/// with step 1; (0, 10000, 1) when the type says otherwise or a number is
/// unreadable.
pub open spec fn spinbox_range_spec(t: Seq<char>) -> (i32, i32, i32) {
    let p = split_on(t, ':');
    if starts_with(t, "spinbox:"@) && p.len() >= 4
        && parse_i32_spec(p[1]) is Some && parse_i32_spec(p[2]) is Some && parse_i32_spec(p[3]) is Some {
        (parse_i32_spec(p[1])->0, parse_i32_spec(p[2])->0, parse_i32_spec(p[3])->0)
    } else if starts_with(t, "spinbox:"@) && p.len() == 3
        && parse_i32_spec(p[1]) is Some && parse_i32_spec(p[2]) is Some {
        (parse_i32_spec(p[1])->0, parse_i32_spec(p[2])->0, 1)
    } else {
        (0, 10000, 1)
    }
}

/// A spinbox row's (min, max, step).
pub fn parse_spinbox_range(ptype: &str) -> (r: (i32, i32, i32))
    ensures
        r == spinbox_range_spec(ptype@),
{
    let v = to_chars(ptype);
    if chars_start_with(&v, "spinbox:") {
        let n = field_count(&v);
        if n >= 4 {
            let f1 = field_chars(&v, 1);
            let f2 = field_chars(&v, 2);
            let f3 = field_chars(&v, 3);
            match (f1, f2, f3) {
                (Some(a), Some(b), Some(c)) => {
                    match (parse_i32(&a), parse_i32(&b), parse_i32(&c)) {
                        (Some(min), Some(max), Some(step)) => {
                            return (min, max, step);
                        }
                        _ => {}
                    }
                }
                _ => {}
            }
        } else if n == 3 {
            let f1 = field_chars(&v, 1);
            let f2 = field_chars(&v, 2);
            match (f1, f2) {
                (Some(a), Some(b)) => {
                    match (parse_i32(&a), parse_i32(&b)) {
                        (Some(min), Some(max)) => {
                            return (min, max, 1);
                        }
                        _ => {}
                    }
                }
                _ => {}
            }
        }
    }
    (0, 10000, 1)
}

/// The value of a hexadecimal digit.
pub open spec fn hex_val(c: char) -> Option<int> {
    if '0' <= c <= '9' {
        Some(c as int - '0' as int)
    } else if 'a' <= c <= 'f' {
        Some(c as int - 'a' as int + 10)
    } else if 'A' <= c <= 'F' {
        Some(c as int - 'A' as int + 10)
    } else {
        None
    }
}

/// The digits of a color: the text after an optional leading `#`.
pub open spec fn hex_digits(s: Seq<char>) -> Seq<char> {
    if s.len() > 0 && s[0] == '#' { s.drop_first() } else { s }
}

pub open spec fn all_hex(d: Seq<char>) -> bool {
    forall|i: int| 0 <= i < d.len() ==> hex_val(#[trigger] d[i]) is Some
}

/// The byte written by the digit pair starting at `i`.
pub open spec fn hex_byte(d: Seq<char>, i: int) -> u8 {
    (hex_val(d[i])->0 * 16 + hex_val(d[i + 1])->0) as u8
}

/// A color written as hex: `#rrggbb` (opaque) or `#rrggbbaa`, the `#` optional, digits
/// in either case.
pub open spec fn hex_bytes_spec(s: Seq<char>) -> Option<[u8; 4]> {
    let d = hex_digits(s);
    if (d.len() == 6 || d.len() == 8) && all_hex(d) {
        Some([hex_byte(d, 0), hex_byte(d, 2), hex_byte(d, 4), if d.len() == 8 { hex_byte(d, 6) } else { 255u8 }])
    } else {
        None
    }
}

fn hex_digit(c: char) -> (r: Option<u8>)
    ensures
        match hex_val(c) {
            Some(v) => r == Some(v as u8),
            None => r is None,
        },
        r matches Some(v) ==> v < 16,
{
    if '0' <= c && c <= '9' {
        Some(((c as u32) - ('0' as u32)) as u8)
    } else if 'a' <= c && c <= 'f' {
        Some(((c as u32) - ('a' as u32) + 10) as u8)
    } else if 'A' <= c && c <= 'F' {
        Some(((c as u32) - ('A' as u32) + 10) as u8)
    } else {
        None
    }
}

/// The color a hex string writes, red, green, blue, alpha.
pub fn parse_hex_bytes(s: &str) -> (r: Option<[u8; 4]>)
    ensures
        r == hex_bytes_spec(s@),
{
    let v = to_chars(s);
    let start: usize = if v.len() > 0 && v[0] == '#' { 1 } else { 0 };
    let n = v.len() - start;
    let ghost d = hex_digits(v@);
    proof {
        assert(d =~= v@.skip(start as int));
    }
    if n != 6 && n != 8 {
        return None;
    }
    let mut bytes: [u8; 4] = [0, 0, 0, 255];
    let pairs: usize = if n == 6 { 3 } else { 4 };
    let mut q: usize = 0;
    while q < pairs
        invariant
            q <= pairs,
            pairs * 2 == n,
            v@ == s@,
            d == hex_digits(v@),
            n == 6 || n == 8,
            start + n == v@.len(),
            d == v@.skip(start as int),
            d.len() == n,
            forall|i: int| 0 <= i < 2 * q ==> hex_val(#[trigger] d[i]) is Some,
            forall|j: int| 0 <= j < q ==> bytes[j] == hex_byte(d, 2 * j),
            q < 4 ==> bytes[3] == 255,
        decreases pairs - q,
    {
        let k = 2 * q;
        let hi = hex_digit(v[start + k]);
        let lo = hex_digit(v[start + k + 1]);
        proof {
            assert(d[k as int] == v@[start + k]);
            assert(d[k + 1] == v@[start + k + 1]);
        }
        match (hi, lo) {
            (Some(h), Some(l)) => {
                let b: u8 = h * 16 + l;
                bytes[q] = b;
                proof {
                    assert(hex_byte(d, k as int) == b);
                }
            }
            _ => {
                proof {
                    assert(!all_hex(d)) by {
                        if hex_val(d[k as int]) is None {
                            assert(hex_val(d[k as int]) is None);
                        } else {
                            assert(hex_val(d[k + 1]) is None);
                        }
                    }
                    assert(hex_digits(s@) == d);
                }
                return None;
            }
        }
        q = q + 1;
    }
    proof {
        assert(all_hex(d));
    }
    Some(bytes)
}

/// A color row's RGB value.
pub fn parse_hex_to_rgb(s: &str) -> (r: Option<[u8; 3]>)
    ensures
        match hex_bytes_spec(s@) {
            Some(b) => r == Some([b[0], b[1], b[2]]),
            None => r is None,
        },
{
    match parse_hex_bytes(s) {
        Some(b) => Some([b[0], b[1], b[2]]),
        None => None,
    }
}

/// An alpha-carrying color row's RGBA value.
pub fn parse_hex_to_rgba(s: &str) -> (r: Option<[u8; 4]>)
    ensures
        r == hex_bytes_spec(s@),
{
    parse_hex_bytes(s)
}

/// The views of a list of strings.
pub open spec fn views(v: Seq<String>) -> Seq<Seq<char>> {
    v.map_values(|x: String| x@)
}

/// The strings of the `sep`-separated pieces of `v`.
pub fn pieces(v: &Vec<char>, sep: char) -> (out: Vec<String>)
    ensures
        views(out@) == split_on(v@, sep),
{
    let r = split_ranges(v, sep);
    let mut out: Vec<String> = Vec::new();
    let mut k: usize = 0;
    while k < r.len()
        invariant
            k <= r.len(),
            ranges_of_split(v@, sep, r@),
            views(out@) == split_on(v@, sep).take(k as int),
        decreases r.len() - k,
    {
        let (a, b) = r[k];
        let piece = sub_chars(v, a, b);
        let st = chars_to_string(&piece);
        let ghost before = out@;
        out.push(st);
        proof {
            assert(v@.subrange(a as int, b as int) == split_on(v@, sep)[k as int]);
            assert(views(out@) =~= views(before).push(st@));
            assert(views(out@) =~= split_on(v@, sep).take(k + 1));
        }
        k = k + 1;
    }
    proof {
        assert(split_on(v@, sep).take(k as int) =~= split_on(v@, sep));
    }
    out
}

/// A choice row's options: the `,`-separated pieces after `choice:`.
pub open spec fn choice_options_spec(t: Seq<char>) -> Option<Seq<Seq<char>>> {
    if starts_with(t, "choice:"@) { Some(split_on(t.skip(7), ',')) } else { None }
}

/// A choice row's options, when its type names them.
pub fn choice_options(ptype: &str) -> (r: Option<Vec<String>>)
    ensures
        match choice_options_spec(ptype@) {
            Some(o) => r matches Some(v) && views(v@) == o,
            None => r is None,
        },
{
    let v = to_chars(ptype);
    if !chars_start_with(&v, "choice:") {
        return None;
    }
    proof { reveal_strlit("choice:"); }
    let rest = sub_chars(&v, 7, v.len());
    proof {
        assert(rest@ =~= v@.skip(7));
    }
    Some(pieces(&rest, ','))
}

pub open spec fn nonempty_piece(p: Seq<char>) -> bool {
    p.len() > 0
}

/// A textpick row's picker candidates: the non-empty `,` pieces after `textpick:`;
/// `None` when the type is not a textpick type or names no candidate.
pub open spec fn textpick_options_spec(t: Seq<char>) -> Option<Seq<Seq<char>>> {
    if starts_with(t, "textpick:"@) {
        let o = split_on(t.skip(9), ',').filter(|p: Seq<char>| nonempty_piece(p));
        if o.len() > 0 { Some(o) } else { None }
    } else {
        None
    }
}

/// A textpick row's picker candidates.
pub fn textpick_options(ptype: &str) -> (r: Option<Vec<String>>)
    ensures
        match textpick_options_spec(ptype@) {
            Some(o) => r matches Some(v) && views(v@) == o,
            None => r is None,
        },
{
    let v = to_chars(ptype);
    if !chars_start_with(&v, "textpick:") {
        return None;
    }
    proof { reveal_strlit("textpick:"); }
    let rest = sub_chars(&v, 9, v.len());
    proof {
        assert(rest@ =~= v@.skip(9));
    }
    let all = pieces(&rest, ',');
    let ghost pieces = split_on(rest@, ',');
    let ghost pred = |p: Seq<char>| nonempty_piece(p);
    let mut out: Vec<String> = Vec::new();
    let mut k: usize = 0;
    while k < all.len()
        invariant
            k <= all.len(),
            views(all@) == pieces,
            views(out@) == pieces.take(k as int).filter(pred),
            pred == (|p: Seq<char>| nonempty_piece(p)),
        decreases all.len() - k,
    {
        let ghost before = pieces.take(k as int);
        let ghost item = all@[k as int]@;
        proof {
            assert(pieces.take(k + 1).drop_last() =~= before);
            assert(pieces.take(k + 1).last() == item);
            assert(pieces.take(k + 1).filter(pred) == if pred(item) {
                before.filter(pred).push(item)
            } else {
                before.filter(pred)
            }) by {
                reveal(Seq::filter);
            }
        }
        let cs = to_chars(all[k].as_str());
        let ghost prev = out@;
        proof {
            assert(pred(item) == (cs@.len() > 0));
        }
        if cs.len() > 0 {
            let c = all[k].clone();
            out.push(c);
            proof {
                assert(views(out@) =~= views(prev).push(item));
            }
        }
        k = k + 1;
    }
    proof {
        assert(pieces.take(k as int) =~= pieces);
    }
    if out.len() > 0 {
        Some(out)
    } else {
        None
    }
}

/// The option a value selects: the first option equal to it, else the first.
pub open spec fn selected_option_spec(options: Seq<Seq<char>>, value: Seq<char>) -> int {
    if exists|i: int| 0 <= i < options.len() && options[i] == value {
        choose|i: int| 0 <= i < options.len() && options[i] == value
            && forall|j: int| 0 <= j < i ==> options[j] != value
    } else {
        0
    }
}

/// The index of the first option equal to `value`, if any.
pub fn position_of(options: &Vec<String>, value: &str) -> (r: Option<usize>)
    ensures
        match r {
            Some(i) => i < options@.len() && options@[i as int]@ == value@
                && forall|j: int| 0 <= j < i ==> options@[j]@ != value@,
            None => forall|j: int| 0 <= j < options@.len() ==> options@[j]@ != value@,
        },
{
    let target = to_chars(value);
    let mut i: usize = 0;
    while i < options.len()
        invariant
            i <= options@.len(),
            target@ == value@,
            forall|j: int| 0 <= j < i ==> options@[j]@ != value@,
        decreases options.len() - i,
    {
        let o = to_chars(options[i].as_str());
        if chars_eq(&o, &target) {
            return Some(i);
        }
        i = i + 1;
    }
    None
}

/// Unicode white space, as `char::is_whitespace` and `str::trim` see it.
pub open spec fn is_white_space(c: char) -> bool {
    ||| '\u{9}' <= c <= '\u{d}'
    ||| c == ' '
    ||| c == '\u{85}'
    ||| c == '\u{a0}'
    ||| c == '\u{1680}'
    ||| '\u{2000}' <= c <= '\u{200a}'
    ||| c == '\u{2028}'
    ||| c == '\u{2029}'
    ||| c == '\u{202f}'
    ||| c == '\u{205f}'
    ||| c == '\u{3000}'
}

fn white_space(c: char) -> (r: bool)
    ensures
        r == is_white_space(c),
{
    ('\u{9}' <= c && c <= '\u{d}') || c == ' ' || c == '\u{85}' || c == '\u{a0}' || c == '\u{1680}'
        || ('\u{2000}' <= c && c <= '\u{200a}') || c == '\u{2028}' || c == '\u{2029}'
        || c == '\u{202f}' || c == '\u{205f}' || c == '\u{3000}'
}

/// `s` with the white space at both ends removed: some `[a, b)` of it.
pub open spec fn is_trim_of(s: Seq<char>, a: int, b: int) -> bool {
    &&& 0 <= a <= b <= s.len()
    &&& forall|i: int| 0 <= i < a ==> is_white_space(#[trigger] s[i])
    &&& forall|i: int| b <= i < s.len() ==> is_white_space(#[trigger] s[i])
    &&& a < b ==> !is_white_space(s[a]) && !is_white_space(s[b - 1])
}

/// `s` with the white space at both ends removed, as `str::trim` gives it.
pub open spec fn trimmed(s: Seq<char>) -> Seq<char> {
    if exists|a: int, b: int| is_trim_of(s, a, b) && a < b {
        let (a, b) = choose|a: int, b: int| is_trim_of(s, a, b) && a < b;
        s.subrange(a, b)
    } else {
        Seq::empty()
    }
}

/// The characters of `v` without the white space at either end.
pub fn trim_chars(v: &Vec<char>) -> (r: Vec<char>)
    ensures
        r@ == trimmed(v@),
{
    let mut a: usize = 0;
    while a < v.len() && white_space(v[a])
        invariant
            a <= v@.len(),
            forall|i: int| 0 <= i < a ==> is_white_space(#[trigger] v@[i]),
        decreases v.len() - a,
    {
        a = a + 1;
    }
    let mut b: usize = v.len();
    while b > a && white_space(v[b - 1])
        invariant
            a <= b <= v@.len(),
            forall|i: int| b <= i < v@.len() ==> is_white_space(#[trigger] v@[i]),
        decreases b,
    {
        b = b - 1;
    }
    proof {
        assert(is_trim_of(v@, a as int, b as int));
        if a < b {
            let (a2, b2) = choose|a2: int, b2: int| is_trim_of(v@, a2, b2) && a2 < b2;
            lemma_trim_unique(v@, a2, b2, a as int, b as int);
        } else {
            if exists|a2: int, b2: int| is_trim_of(v@, a2, b2) && a2 < b2 {
                let (a2, b2) = choose|a2: int, b2: int| is_trim_of(v@, a2, b2) && a2 < b2;
                lemma_trim_unique(v@, a2, b2, a as int, b as int);
            }
            assert(v@.subrange(a as int, b as int) =~= Seq::<char>::empty());
        }
    }
    let mut r: Vec<char> = Vec::new();
    let mut i: usize = a;
    while i < b
        invariant
            a <= i <= b <= v@.len(),
            r@ == v@.subrange(a as int, i as int),
        decreases b - i,
    {
        r.push(v[i]);
        proof {
            assert(v@.subrange(a as int, i + 1) =~= v@.subrange(a as int, i as int).push(v@[i as int]));
        }
        i = i + 1;
    }
    r
}

/// Whether a toggle row's value turns it on: the value, trimmed, is `true` in any
/// letter case.
pub open spec fn toggle_on_spec(value: Seq<char>) -> bool {
    exists|a: int, b: int| is_trim_of(value, a, b) && b - a == 4
        && (value[a] == 't' || value[a] == 'T') && (value[a + 1] == 'r' || value[a + 1] == 'R')
        && (value[a + 2] == 'u' || value[a + 2] == 'U') && (value[a + 3] == 'e' || value[a + 3] == 'E')
}

proof fn lemma_trim_unique(s: Seq<char>, a: int, b: int, a2: int, b2: int)
    requires
        is_trim_of(s, a, b),
        is_trim_of(s, a2, b2),
    ensures
        a < b ==> a == a2 && b == b2,
{
    if a < b {
        if a2 < a {
            assert(is_white_space(s[a2]));
        }
        if a2 > a {
            assert(!is_white_space(s[a]));
        }
        if b2 < b {
            assert(!is_white_space(s[b - 1]));
        }
        if b2 > b {
            assert(is_white_space(s[b2 - 1]));
        }
    }
}

/// Whether a toggle row's value turns it on.
pub fn toggle_on(value: &str) -> (r: bool)
    ensures
        r == toggle_on_spec(value@),
{
    let v = to_chars(value);
    let mut a: usize = 0;
    while a < v.len() && white_space(v[a])
        invariant
            a <= v@.len(),
            v@ == value@,
            forall|i: int| 0 <= i < a ==> is_white_space(#[trigger] v@[i]),
        decreases v.len() - a,
    {
        a = a + 1;
    }
    let mut b: usize = v.len();
    while b > a && white_space(v[b - 1])
        invariant
            a <= b <= v@.len(),
            v@ == value@,
            forall|i: int| b <= i < v@.len() ==> is_white_space(#[trigger] v@[i]),
        decreases b,
    {
        b = b - 1;
    }
    proof {
        assert(is_trim_of(v@, a as int, b as int));
    }
    let r = b - a == 4
        && (v[a] == 't' || v[a] == 'T') && (v[a + 1] == 'r' || v[a + 1] == 'R')
        && (v[a + 2] == 'u' || v[a + 2] == 'U') && (v[a + 3] == 'e' || v[a + 3] == 'E');
    proof {
        if !r {
            assert forall|a2: int, b2: int| is_trim_of(v@, a2, b2) && b2 - a2 == 4 implies !(
                (v@[a2] == 't' || v@[a2] == 'T') && (v@[a2 + 1] == 'r' || v@[a2 + 1] == 'R')
                && (v@[a2 + 2] == 'u' || v@[a2 + 2] == 'U') && (v@[a2 + 3] == 'e' || v@[a2 + 3] == 'E')) by {
                lemma_trim_unique(v@, a2, b2, a as int, b as int);
            }
        }
    }
    r
}

/// The kinds of parameter row, by type string.
#[derive(PartialEq, Eq, Clone, Copy, Structural)]
pub enum RowKind {
    /// `"code"`: a multi-line code editor.
    Code,
    /// `"section"`: a collapsible section header.
    Section,
    /// `"ramp"`: a ramp-curve editor.
    Ramp,
    /// `"float3..."`: three sliders.
    Float3,
    /// `"slider..."`.
    Slider,
    /// `"text"` or `"textpick..."`.
    Text,
    /// `"spinbox..."`.
    Spinbox,
    /// `"choice..."`: a dropdown.
    Choice,
    /// `"color..."`, `"rgb"`, `"rgba"`.
    Color,
    /// `"button"`.
    Button,
    /// `"toggle"` or `"checkbox"`.
    Toggle,
    /// Anything else: a read-only `name: value` line.
    Plain,
}

/// The kind of row a type string makes (the first matching rule wins).
pub open spec fn row_kind_spec(t: Seq<char>) -> RowKind {
    if t == "code"@ { RowKind::Code }
    else if t == "section"@ { RowKind::Section }
    else if t == "ramp"@ { RowKind::Ramp }
    else if starts_with(t, "float3"@) { RowKind::Float3 }
    else if starts_with(t, "slider"@) { RowKind::Slider }
    else if is_text_row_spec(t) { RowKind::Text }
    else if starts_with(t, "spinbox"@) { RowKind::Spinbox }
    else if starts_with(t, "choice"@) { RowKind::Choice }
    else if starts_with(t, "color"@) || t == "rgb"@ || t == "rgba"@ { RowKind::Color }
    else if t == "button"@ { RowKind::Button }
    else if t == "toggle"@ || t == "checkbox"@ { RowKind::Toggle }
    else { RowKind::Plain }
}

/// The kind of row a type string makes.
pub fn row_kind(ptype: &str) -> (k: RowKind)
    ensures
        k == row_kind_spec(ptype@),
{
    let v = to_chars(ptype);
    if chars_equal_str(&v, "code") { RowKind::Code }
    else if chars_equal_str(&v, "section") { RowKind::Section }
    else if chars_equal_str(&v, "ramp") { RowKind::Ramp }
    else if chars_start_with(&v, "float3") { RowKind::Float3 }
    else if chars_start_with(&v, "slider") { RowKind::Slider }
    else if chars_equal_str(&v, "text") || chars_start_with(&v, "textpick") { RowKind::Text }
    else if chars_start_with(&v, "spinbox") { RowKind::Spinbox }
    else if chars_start_with(&v, "choice") { RowKind::Choice }
    else if chars_start_with(&v, "color") || chars_equal_str(&v, "rgb") || chars_equal_str(&v, "rgba") {
        RowKind::Color
    }
    else if chars_equal_str(&v, "button") { RowKind::Button }
    else if chars_equal_str(&v, "toggle") || chars_equal_str(&v, "checkbox") { RowKind::Toggle }
    else { RowKind::Plain }
}

/// A row's laid-out height in pixels; a code row grows with its text (`lines` lines at
/// a 16px pitch under a 22px label band and over a 12px margin), never below 200.
pub open spec fn row_height_spec(kind: RowKind, lines: nat) -> nat {
    match kind {
        RowKind::Code => if 34 + 16 * lines > 200 { (34 + 16 * lines) as nat } else { 200 },
        RowKind::Section => 24,
        RowKind::Ramp => 260,
        RowKind::Float3 => 108,
        RowKind::Slider => 38,
        RowKind::Text | RowKind::Spinbox | RowKind::Choice => 42,
        RowKind::Color => 40,
        RowKind::Button | RowKind::Toggle => 24,
        RowKind::Plain => 20,
    }
}

/// A row's height from its kind and, for a code row, the line count of its text.
pub fn row_height_px(kind: RowKind, lines: usize) -> (h: u128)
    ensures
        h == row_height_spec(kind, lines as nat),
{
    match kind {
        RowKind::Code => {
            let h = 34 + 16 * (lines as u128);
            if h > 200 { h } else { 200 }
        }
        RowKind::Section => 24,
        RowKind::Ramp => 260,
        RowKind::Float3 => 108,
        RowKind::Slider => 38,
        RowKind::Text | RowKind::Spinbox | RowKind::Choice => 42,
        RowKind::Color => 40,
        RowKind::Button | RowKind::Toggle => 24,
        RowKind::Plain => 20,
    }
}

/// A choice row's options are the `,`-separated pieces of its type after `choice:`:
/// joined back with commas they give that text, and no option holds a comma. A type
/// without the `choice:` prefix has no options.
pub proof fn lemma_choice_options_are_the_pieces(t: Seq<char>)
    ensures
        starts_with(t, "choice:"@) ==> (choice_options_spec(t) matches Some(o)
            && "choice:"@ + joined(o, ',') == t
            && (forall|k: int, j: int| 0 <= k < o.len() && 0 <= j < o[k].len() ==> #[trigger] o[k][j] != ',')),
        !starts_with(t, "choice:"@) ==> choice_options_spec(t) is None,
{
    if starts_with(t, "choice:"@) {
        reveal_strlit("choice:");
        lemma_split_joins_back(t.skip(7), ',');
        lemma_split_pieces_lack_sep(t.skip(7), ',');
        assert(t.take(7) + t.skip(7) =~= t);
    }
}

} // verus!
