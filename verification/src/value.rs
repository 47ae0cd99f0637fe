//! The tagged attribute values stored for a span, and their rendering
//! as compact JSON text.

use vstd::prelude::*;
use vstd::string::StringExecFns;
use vstd::string::StrSliceExecFns;

use crate::host::push_char;

verus! {

/// An attribute value: the closed set of shapes a recorded field may
/// take. Anything else the host renders to text before it reaches us.
#[derive(Debug, PartialEq, Eq)]
pub enum JsonVal {
    Int(i64),
    UInt(u64),
    Bool(bool),
    Str(String),
}

/// The mathematical shape of a `JsonVal`: strings become character
/// sequences.
pub enum SpecVal {
    Int(i64),
    UInt(u64),
    Bool(bool),
    Str(Seq<char>),
}

impl View for JsonVal {
    type V = SpecVal;

    open spec fn view(&self) -> SpecVal {
        match self {
            JsonVal::Int(i) => SpecVal::Int(*i),
            JsonVal::UInt(u) => SpecVal::UInt(*u),
            JsonVal::Bool(b) => SpecVal::Bool(*b),
            JsonVal::Str(s) => SpecVal::Str(s@),
        }
    }
}

impl JsonVal {
    /// An independent copy with the same mathematical value.
    pub fn duplicate(&self) -> (r: JsonVal)
        ensures
            r@ == self@,
    {
        match self {
            JsonVal::Int(i) => JsonVal::Int(*i),
            JsonVal::UInt(u) => JsonVal::UInt(*u),
            JsonVal::Bool(b) => JsonVal::Bool(*b),
            JsonVal::Str(s) => JsonVal::Str(s.clone()),
        }
    }
}

/// The decimal digit characters, `0` through `9`.
pub open spec fn digit_of(d: nat) -> char {
    if d == 0 { '0' }
    else if d == 1 { '1' }
    else if d == 2 { '2' }
    else if d == 3 { '3' }
    else if d == 4 { '4' }
    else if d == 5 { '5' }
    else if d == 6 { '6' }
    else if d == 7 { '7' }
    else if d == 8 { '8' }
    else { '9' }
}

/// Decimal rendering of a natural number, most significant digit first.
pub open spec fn dec_of_nat(n: nat) -> Seq<char>
    decreases n,
{
    if n < 10 {
        seq![digit_of(n)]
    } else {
        dec_of_nat(n / 10) + seq![digit_of(n % 10)]
    }
}

/// Decimal rendering of an integer: a leading minus sign when negative.
pub open spec fn dec_of_int(i: int) -> Seq<char> {
    if i < 0 {
        seq!['-'] + dec_of_nat((-i) as nat)
    } else {
        dec_of_nat(i as nat)
    }
}

/// The lowercase hexadecimal digit characters.
pub open spec fn hex_of(d: nat) -> char {
    if d < 10 { digit_of(d) }
    else if d == 10 { 'a' }
    else if d == 11 { 'b' }
    else if d == 12 { 'c' }
    else if d == 13 { 'd' }
    else if d == 14 { 'e' }
    else { 'f' }
}

/// JSON escaping of a single character: quotes and backslashes get a
/// backslash, the named control characters their short escape, any
/// other control character a `\u00..` escape; everything else passes
/// through unchanged.
pub open spec fn esc_char(c: char) -> Seq<char> {
    if c == '"' { seq!['\\', '"'] }
    else if c == '\\' { seq!['\\', '\\'] }
    else if c == '\u{8}' { seq!['\\', 'b'] }
    else if c == '\u{c}' { seq!['\\', 'f'] }
    else if c == '\n' { seq!['\\', 'n'] }
    else if c == '\r' { seq!['\\', 'r'] }
    else if c == '\t' { seq!['\\', 't'] }
    else if (c as u32) < 32 {
        seq!['\\', 'u', '0', '0', hex_of(((c as u32) / 16) as nat), hex_of(((c as u32) % 16) as nat)]
    } else {
        seq![c]
    }
}

/// JSON escaping of a whole character sequence.
pub open spec fn esc_seq(s: Seq<char>) -> Seq<char>
    decreases s.len(),
{
    if s.len() == 0 {
        Seq::empty()
    } else {
        esc_seq(s.drop_last()) + esc_char(s.last())
    }
}

/// The mathematical shape of a whole attribute object: its entries in
/// insertion order.
pub type SpecObj = Seq<(Seq<char>, SpecVal)>;

/// The compact JSON text of one `"key":value` entry.
pub open spec fn render_entry(e: (Seq<char>, SpecVal)) -> Seq<char> {
    seq!['"'] + esc_seq(e.0) + seq!['"'] + seq![':'] + render_val(e.1)
}

/// The comma-separated entry list of an object.
pub open spec fn render_entries(o: SpecObj) -> Seq<char>
    decreases o.len(),
{
    if o.len() == 0 {
        Seq::empty()
    } else if o.len() == 1 {
        render_entry(o[0])
    } else {
        render_entries(o.drop_last()) + seq![','] + render_entry(o.last())
    }
}

/// The compact JSON document for an object: braces around its entries.
pub open spec fn render_record(o: SpecObj) -> Seq<char> {
    seq!['{'] + render_entries(o) + seq!['}']
}

/// The compact JSON text of one attribute value.
pub open spec fn render_val(v: SpecVal) -> Seq<char> {
    match v {
        SpecVal::Int(i) => dec_of_int(i as int),
        SpecVal::UInt(u) => dec_of_nat(u as nat),
        SpecVal::Bool(b) => if b { "true"@ } else { "false"@ },
        SpecVal::Str(s) => seq!['"'] + esc_seq(s) + seq!['"'],
    }
}

/// Control characters never appear in rendered JSON: escaping replaces
/// them all.
pub open spec fn is_ctl(c: char) -> bool {
    (c as u32) < 32
}

pub open spec fn no_ctl(s: Seq<char>) -> bool {
    forall|i: int| 0 <= i < s.len() ==> !is_ctl(#[trigger] s[i])
}

proof fn lemma_digit_no_ctl(d: nat)
    ensures
        !is_ctl(digit_of(d)),
        !is_ctl(hex_of(d)),
{
}

proof fn lemma_dec_of_nat_no_ctl(n: nat)
    ensures
        no_ctl(dec_of_nat(n)),
    decreases n,
{
    if n < 10 {
        lemma_digit_no_ctl(n);
    } else {
        lemma_dec_of_nat_no_ctl(n / 10);
        lemma_digit_no_ctl(n % 10);
    }
}

proof fn lemma_dec_of_int_no_ctl(i: int)
    ensures
        no_ctl(dec_of_int(i)),
{
    if i < 0 {
        lemma_dec_of_nat_no_ctl((-i) as nat);
    } else {
        lemma_dec_of_nat_no_ctl(i as nat);
    }
}

proof fn lemma_esc_char_no_ctl(c: char)
    ensures
        no_ctl(esc_char(c)),
{
    if !(c == '"' || c == '\\' || c == '\u{8}' || c == '\u{c}' || c == '\n' || c == '\r' || c
        == '\t') && (c as u32) < 32 {
        lemma_digit_no_ctl((((c as u32) / 16) as nat));
        lemma_digit_no_ctl((((c as u32) % 16) as nat));
    }
}

proof fn lemma_esc_seq_no_ctl(s: Seq<char>)
    ensures
        no_ctl(esc_seq(s)),
    decreases s.len(),
{
    if s.len() > 0 {
        lemma_esc_seq_no_ctl(s.drop_last());
        lemma_esc_char_no_ctl(s.last());
    }
}

proof fn lemma_render_val_no_ctl(v: SpecVal)
    ensures
        no_ctl(render_val(v)),
{
    match v {
        SpecVal::Int(i) => lemma_dec_of_int_no_ctl(i as int),
        SpecVal::UInt(u) => lemma_dec_of_nat_no_ctl(u as nat),
        SpecVal::Bool(b) => {
            reveal_strlit("true");
            reveal_strlit("false");
            assert(no_ctl("true"@));
            assert(no_ctl("false"@));
        },
        SpecVal::Str(s) => lemma_esc_seq_no_ctl(s),
    }
}

proof fn lemma_render_entries_no_ctl(o: SpecObj)
    ensures
        no_ctl(render_entries(o)),
    decreases o.len(),
{
    if o.len() == 1 {
        lemma_esc_seq_no_ctl(o[0].0);
        lemma_render_val_no_ctl(o[0].1);
    } else if o.len() > 1 {
        lemma_render_entries_no_ctl(o.drop_last());
        lemma_esc_seq_no_ctl(o.last().0);
        lemma_render_val_no_ctl(o.last().1);
    }
}

/// One whole record line: newline-terminated, with no newline anywhere
/// before the end.
pub open spec fn whole_line(line: Seq<char>) -> bool {
    &&& line.len() > 0
    &&& line.last() == '\n'
    &&& forall|i: int| 0 <= i < line.len() - 1 ==> #[trigger] line[i] != '\n'
}

/// Atomic emission, the library's half: a rendered record holds no
/// control character, so the newline-terminated line the coordinator
/// hands out contains exactly one newline — at its end. Concurrent
/// writers that write whole lines can therefore never tear a record.
pub proof fn lemma_line_single_newline(o: SpecObj)
    ensures
        whole_line(render_record(o) + seq!['\n']),
{
    lemma_render_entries_no_ctl(o);
    assert(no_ctl(render_record(o)));
    let line = render_record(o) + seq!['\n'];
    assert forall|i: int| 0 <= i < line.len() - 1 implies #[trigger] line[i] != '\n' by {
        assert(line[i] == render_record(o)[i]);
        assert(!is_ctl(render_record(o)[i]));
    }
}

fn digit_char(d: u64) -> (c: char)
    requires
        d < 10,
    ensures
        c == digit_of(d as nat),
{
    match d {
        0 => '0',
        1 => '1',
        2 => '2',
        3 => '3',
        4 => '4',
        5 => '5',
        6 => '6',
        7 => '7',
        8 => '8',
        _ => '9',
    }
}

fn hex_char(d: u32) -> (c: char)
    requires
        d < 16,
    ensures
        c == hex_of(d as nat),
{
    match d {
        0 => '0',
        1 => '1',
        2 => '2',
        3 => '3',
        4 => '4',
        5 => '5',
        6 => '6',
        7 => '7',
        8 => '8',
        9 => '9',
        10 => 'a',
        11 => 'b',
        12 => 'c',
        13 => 'd',
        14 => 'e',
        _ => 'f',
    }
}

/// Appends the decimal rendering of `n`.
pub fn append_u64(out: &mut String, n: u64)
    ensures
        final(out)@ == old(out)@ + dec_of_nat(n as nat),
    decreases n,
{
    if n < 10 {
        push_char(out, digit_char(n));
        assert(out@ =~= old(out)@ + dec_of_nat(n as nat));
    } else {
        append_u64(out, n / 10);
        push_char(out, digit_char(n % 10));
        assert(out@ =~= old(out)@ + dec_of_nat(n as nat));
    }
}

/// Appends the decimal rendering of `n`, minus sign included.
pub fn append_i64(out: &mut String, n: i64)
    ensures
        final(out)@ == old(out)@ + dec_of_int(n as int),
{
    if n < 0 {
        let ghost pre = out@;
        out.append("-");
        proof {
            reveal_strlit("-");
        }
        let mag: u64 = (-(n as i128)) as u64;
        append_u64(out, mag);
        assert(out@ =~= pre + dec_of_int(n as int));
    } else {
        append_u64(out, n as u64);
    }
}

/// Appends the JSON escaping of `s`.
pub fn append_escaped(out: &mut String, s: &str)
    ensures
        final(out)@ == old(out)@ + esc_seq(s@),
{
    let n = s.unicode_len();
    let mut i: usize = 0;
    while i < n
        invariant
            n == s@.len(),
            i <= n,
            out@ == old(out)@ + esc_seq(s@.take(i as int)),
        decreases n - i,
    {
        let c = s.get_char(i);
        let ghost pre = out@;
        if c == '"' {
            out.append("\\\"");
            proof { reveal_strlit("\\\""); }
        } else if c == '\\' {
            out.append("\\\\");
            proof { reveal_strlit("\\\\"); }
        } else if c == '\u{8}' {
            out.append("\\b");
            proof { reveal_strlit("\\b"); }
        } else if c == '\u{c}' {
            out.append("\\f");
            proof { reveal_strlit("\\f"); }
        } else if c == '\n' {
            out.append("\\n");
            proof { reveal_strlit("\\n"); }
        } else if c == '\r' {
            out.append("\\r");
            proof { reveal_strlit("\\r"); }
        } else if c == '\t' {
            out.append("\\t");
            proof { reveal_strlit("\\t"); }
        } else if (c as u32) < 32 {
            out.append("\\u00");
            proof { reveal_strlit("\\u00"); }
            push_char(out, hex_char((c as u32) / 16));
            push_char(out, hex_char((c as u32) % 16));
        } else {
            push_char(out, c);
        }
        assert(out@ =~= pre + esc_char(c));
        proof {
            assert(s@.take(i + 1).drop_last() =~= s@.take(i as int));
            assert(s@.take(i + 1).last() == c);
            assert(out@ =~= old(out)@ + esc_seq(s@.take(i + 1)));
        }
        i = i + 1;
    }
    assert(s@.take(n as int) =~= s@);
}

/// Appends `s` as a quoted, escaped JSON string.
pub fn append_json_string(out: &mut String, s: &str)
    ensures
        final(out)@ == old(out)@ + seq!['"'] + esc_seq(s@) + seq!['"'],
{
    push_char(out, '"');
    append_escaped(out, s);
    push_char(out, '"');
    assert(out@ =~= old(out)@ + seq!['"'] + esc_seq(s@) + seq!['"']);
}

/// Appends the compact JSON text of `v`.
pub fn append_val(out: &mut String, v: &JsonVal)
    ensures
        final(out)@ == old(out)@ + render_val(v@),
{
    match v {
        JsonVal::Int(i) => append_i64(out, *i),
        JsonVal::UInt(u) => append_u64(out, *u),
        JsonVal::Bool(b) => {
            if *b {
                out.append("true");
            } else {
                out.append("false");
            }
        },
        JsonVal::Str(s) => append_json_string(out, s.as_str()),
    }
}

} // verus!
