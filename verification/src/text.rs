//! Decimal numbers and separated lines as text.

use vstd::prelude::*;
use vstd::string::StringExecFns;

verus! {

/// The character of one decimal digit.
pub open spec fn digit_char(d: nat) -> char {
    if d == 0 {
        '0'
    } else if d == 1 {
        '1'
    } else if d == 2 {
        '2'
    } else if d == 3 {
        '3'
    } else if d == 4 {
        '4'
    } else if d == 5 {
        '5'
    } else if d == 6 {
        '6'
    } else if d == 7 {
        '7'
    } else if d == 8 {
        '8'
    } else {
        '9'
    }
}

/// The decimal digits of `n`, most significant first, without leading zeros.
pub open spec fn decimal(n: nat) -> Seq<char>
    decreases n,
{
    if n < 10 {
        seq![digit_char(n)]
    } else {
        decimal(n / 10).push(digit_char(n % 10))
    }
}

/// The decimal form of an integer, with a minus sign where it is negative.
pub open spec fn signed_decimal(i: int) -> Seq<char> {
    if i < 0 {
        seq!['-'] + decimal((-i) as nat)
    } else {
        decimal(i as nat)
    }
}

/// The cells joined by `sep`, with nothing before the first or after the last.
pub open spec fn joined(cells: Seq<Seq<char>>, sep: Seq<char>) -> Seq<char>
    decreases cells.len(),
{
    if cells.len() == 0 {
        Seq::empty()
    } else if cells.len() == 1 {
        cells[0]
    } else {
        joined(cells.drop_last(), sep) + sep + cells.last()
    }
}

/// What each string of a vector holds.
pub open spec fn views(cells: Seq<String>) -> Seq<Seq<char>> {
    Seq::new(cells.len(), |i: int| cells[i]@)
}

/// One decimal digit as text.
fn digit_str(d: u8) -> (r: &'static str)
    requires
        d < 10,
    ensures
        r@ == seq![digit_char(d as nat)],
{
    proof {
        reveal_strlit("0");
        reveal_strlit("1");
        reveal_strlit("2");
        reveal_strlit("3");
        reveal_strlit("4");
        reveal_strlit("5");
        reveal_strlit("6");
        reveal_strlit("7");
        reveal_strlit("8");
        reveal_strlit("9");
    }
    let r = if d == 0 {
        "0"
    } else if d == 1 {
        "1"
    } else if d == 2 {
        "2"
    } else if d == 3 {
        "3"
    } else if d == 4 {
        "4"
    } else if d == 5 {
        "5"
    } else if d == 6 {
        "6"
    } else if d == 7 {
        "7"
    } else if d == 8 {
        "8"
    } else {
        "9"
    };
    assert(r@ =~= seq![digit_char(d as nat)]);
    r
}

/// Appends the decimal form of `n` to `out`.
pub fn push_decimal(out: &mut String, n: u128)
    ensures
        final(out)@ == old(out)@ + decimal(n as nat),
    decreases n,
{
    if n >= 10 {
        push_decimal(out, n / 10);
    }
    let d: u8 = (n % 10) as u8;
    out.append(digit_str(d));
    assert(out@ =~= old(out)@ + decimal(n as nat));
}

/// The decimal form of `n`.
pub fn decimal_text(n: u128) -> (r: String)
    ensures
        r@ == decimal(n as nat),
{
    let mut out = String::new();
    push_decimal(&mut out, n);
    assert(out@ =~= decimal(n as nat));
    out
}

/// The decimal form of `i`, with its sign.
pub fn signed_text(i: i32) -> (r: String)
    ensures
        r@ == signed_decimal(i as int),
{
    if i < 0 {
        let mut out = String::from_str("-");
        proof {
            reveal_strlit("-");
            assert(out@ =~= seq!['-']);
        }
        let m: u128 = (-(i as i64)) as u128;
        push_decimal(&mut out, m);
        out
    } else {
        decimal_text(i as u128)
    }
}

/// The cells joined by `sep`.
pub fn join(cells: &Vec<String>, sep: &str) -> (r: String)
    ensures
        r@ == joined(views(cells@), sep@),
{
    let mut out = String::new();
    let mut i: usize = 0;
    while i < cells.len()
        invariant
            i <= cells.len(),
            out@ == joined(views(cells@).take(i as int), sep@),
        decreases cells.len() - i,
    {
        if i > 0 {
            out.append(sep);
        }
        out.append(cells[i].as_str());
        proof {
            let before = views(cells@).take(i as int);
            let now = views(cells@).take(i + 1);
            assert(now.drop_last() =~= before);
            assert(now.last() == cells@[i as int]@);
            if i == 0 {
                assert(out@ =~= now[0]);
            }
        }
        i += 1;
    }
    assert(views(cells@).take(i as int) =~= views(cells@));
    out
}

/// The fields of `s`: the stretches between the occurrences of `sep`. There
/// is always at least one field, and a field may be empty.
pub open spec fn fields_of(s: Seq<char>, sep: char) -> Seq<Seq<char>>
    decreases s.len(),
{
    if s.len() == 0 {
        seq![Seq::empty()]
    } else {
        let before = fields_of(s.drop_last(), sep);
        if s.last() == sep {
            before.push(Seq::empty())
        } else {
            before.drop_last().push(before.last().push(s.last()))
        }
    }
}

/// The fields of `line`, which `sep` separates.
pub fn split(line: &str, sep: char) -> (fields: Vec<String>)
    ensures
        views(fields@) == fields_of(line@, sep),
{
    let n = line.unicode_len();
    let mut fields: Vec<String> = Vec::new();
    let mut start: usize = 0;
    let mut i: usize = 0;
    assert(line@.take(0) =~= Seq::<char>::empty());
    assert(views(fields@).push(line@.subrange(0, 0)) =~= seq![Seq::<char>::empty()]);
    while i < n
        invariant
            n == line@.len(),
            start <= i <= n,
            fields_of(line@.take(i as int), sep) == views(fields@).push(
                line@.subrange(start as int, i as int),
            ),
        decreases n - i,
    {
        let ghost before = fields_of(line@.take(i as int), sep);
        let ghost done = views(fields@);
        proof {
            assert(line@.take(i + 1).drop_last() =~= line@.take(i as int));
            assert(before.last() == line@.subrange(start as int, i as int));
            assert(before.drop_last() =~= done);
        }
        if line.get_char(i) == sep {
            fields.push(String::from_str(line.substring_char(start, i)));
            start = i + 1;
            proof {
                assert(views(fields@) =~= before);
                assert(line@.subrange(start as int, i + 1) =~= Seq::<char>::empty());
            }
        } else {
            assert(line@.subrange(start as int, i as int).push(line@[i as int]) =~= line@.subrange(
                start as int,
                i + 1,
            ));
        }
        i += 1;
    }
    assert(line@.take(i as int) =~= line@);
    fields.push(String::from_str(line.substring_char(start, n)));
    assert(views(fields@) =~= fields_of(line@, sep));
    fields
}

/// There is always a field.
pub proof fn lemma_fields_nonempty(s: Seq<char>, sep: char)
    ensures
        fields_of(s, sep).len() >= 1,
    decreases s.len(),
{
    if s.len() > 0 {
        lemma_fields_nonempty(s.drop_last(), sep);
    }
}

/// Text without the separator behind a line lengthens the line's last field.
proof fn lemma_fields_extend(s: Seq<char>, tail: Seq<char>, sep: char)
    requires
        !tail.contains(sep),
    ensures
        fields_of(s, sep).len() >= 1,
        fields_of(s + tail, sep) == fields_of(s, sep).drop_last().push(
            fields_of(s, sep).last() + tail,
        ),
    decreases tail.len(),
{
    lemma_fields_nonempty(s, sep);
    let f = fields_of(s, sep);
    if tail.len() == 0 {
        assert(s + tail =~= s);
        assert(f.last() + tail =~= f.last());
        assert(f.drop_last().push(f.last()) =~= f);
    } else {
        let shorter = tail.drop_last();
        assert(!shorter.contains(sep)) by {
            if shorter.contains(sep) {
                let k = choose|k: int| 0 <= k < shorter.len() && shorter[k] == sep;
                assert(tail[k] == sep);
            }
        }
        lemma_fields_extend(s, shorter, sep);
        assert(tail.last() != sep) by {
            assert(tail[tail.len() - 1] == tail.last());
        }
        assert((s + tail).drop_last() =~= s + shorter);
        assert((s + tail).last() == tail.last());
        let mid = f.drop_last().push(f.last() + shorter);
        assert(mid.drop_last() =~= f.drop_last());
        assert((f.last() + shorter).push(tail.last()) =~= f.last() + tail);
    }
}

/// Splitting undoes joining: cells that do not hold the separator, joined by
/// it, are the fields of the joined line.
pub proof fn lemma_split_joined(cells: Seq<Seq<char>>, sep: char)
    requires
        cells.len() >= 1,
        forall|i: int| 0 <= i < cells.len() ==> !(#[trigger] cells[i]).contains(sep),
    ensures
        fields_of(joined(cells, seq![sep]), sep) == cells,
    decreases cells.len(),
{
    let empty = Seq::<char>::empty();
    if cells.len() == 1 {
        lemma_fields_extend(empty, cells[0], sep);
        assert(empty + cells[0] =~= cells[0]);
        assert(fields_of(empty, sep).drop_last().push(empty + cells[0]) =~= cells);
    } else {
        let head = cells.drop_last();
        assert forall|i: int| 0 <= i < head.len() implies !(#[trigger] head[i]).contains(sep) by {
            assert(head[i] == cells[i]);
        }
        lemma_split_joined(head, sep);
        let line = joined(head, seq![sep]) + seq![sep];
        assert(line.drop_last() =~= joined(head, seq![sep]));
        assert(line.last() == sep);
        assert(fields_of(line, sep) == head.push(empty));
        lemma_fields_extend(line, cells.last(), sep);
        assert(head.push(empty).drop_last().push(empty + cells.last()) =~= cells);
    }
}

/// No decimal number holds a comma.
pub proof fn lemma_decimal_has_no_comma(n: nat)
    ensures
        !decimal(n).contains(','),
        !signed_decimal(n as int).contains(','),
        !signed_decimal(-(n as int)).contains(','),
    decreases n,
{
    if n >= 10 {
        lemma_decimal_has_no_comma(n / 10);
    }
    let d = decimal(n);
    assert forall|i: int| 0 <= i < d.len() implies d[i] != ',' by {
        if n >= 10 && i < d.len() - 1 {
            assert(decimal(n / 10)[i] == d[i]);
            assert(decimal(n / 10).contains(d[i]));
        }
    }
    let neg = seq!['-'] + d;
    assert forall|i: int| 0 <= i < neg.len() implies neg[i] != ',' by {
        if i > 0 {
            assert(neg[i] == d[i - 1]);
        }
    }
}

} // verus!
