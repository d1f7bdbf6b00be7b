//! String utilities with specifications over `Seq<char>`.

use vstd::prelude::*;
use vstd::string::*;

verus! {

/// The views of a sequence of strings.
pub open spec fn views(v: Seq<String>) -> Seq<Seq<char>> {
    Seq::new(v.len(), |i: int| v[i]@)
}

/// `parts` joined with `sep` between each two neighbours.
pub open spec fn join_spec(parts: Seq<Seq<char>>, sep: Seq<char>) -> Seq<char>
    decreases parts.len(),
{
    if parts.len() == 0 {
        Seq::empty()
    } else if parts.len() == 1 {
        parts[0]
    } else {
        join_spec(parts.drop_last(), sep) + sep + parts.last()
    }
}

/// Joins `parts` with `sep`.
pub fn join(parts: &Vec<String>, sep: &str) -> (r: String)
    ensures
        r@ == join_spec(views(parts@), sep@),
{
    let mut out = String::new();
    let mut i: usize = 0;
    while i < parts.len()
        invariant
            i <= parts.len(),
            out@ == join_spec(views(parts@).take(i as int), sep@),
        decreases parts.len() - i,
    {
        proof {
            let v = views(parts@);
            assert(v.take(i + 1).drop_last() =~= v.take(i as int));
            assert(v.take(i + 1).last() == parts@[i as int]@);
        }
        if i > 0 {
            out.append(sep);
        } else {
            assert(out@ + parts@[i as int]@ =~= parts@[i as int]@);
        }
        out.append(parts[i].as_str());
        i += 1;
    }
    proof {
        assert(views(parts@).take(parts.len() as int) =~= views(parts@));
    }
    out
}

/// The decimal digit character of `d`, for `d < 10`.
pub open spec fn digit_char(d: nat) -> char {
    if d == 0 {
        '0'
    } else if d == 1 {
        '1'
    } else if d == 2 {
        '2'
    } else if d == 3 {
        '3'
    } else if d == 4 {
        '4'
    } else if d == 5 {
        '5'
    } else if d == 6 {
        '6'
    } else if d == 7 {
        '7'
    } else if d == 8 {
        '8'
    } else {
        '9'
    }
}

/// The decimal representation of `n`, most significant digit first.
pub open spec fn decimal(n: nat) -> Seq<char>
    decreases n,
{
    if n < 10 {
        seq![digit_char(n)]
    } else {
        decimal(n / 10).push(digit_char(n % 10))
    }
}

fn digit_str(d: usize) -> (r: &'static str)
    requires
        d < 10,
    ensures
        r@ == seq![digit_char(d as nat)],
{
    proof {
        reveal_strlit("0");
        reveal_strlit("1");
        reveal_strlit("2");
        reveal_strlit("3");
        reveal_strlit("4");
        reveal_strlit("5");
        reveal_strlit("6");
        reveal_strlit("7");
        reveal_strlit("8");
        reveal_strlit("9");
    }
    let r: &'static str = if d == 0 {
        "0"
    } else if d == 1 {
        "1"
    } else if d == 2 {
        "2"
    } else if d == 3 {
        "3"
    } else if d == 4 {
        "4"
    } else if d == 5 {
        "5"
    } else if d == 6 {
        "6"
    } else if d == 7 {
        "7"
    } else if d == 8 {
        "8"
    } else {
        "9"
    };
    assert(r@ =~= seq![digit_char(d as nat)]);
    r
}

/// Writes `n` in decimal.
pub fn to_decimal(n: usize) -> (r: String)
    ensures
        r@ == decimal(n as nat),
    decreases n,
{
    if n < 10 {
        String::from_str(digit_str(n))
    } else {
        let mut s = to_decimal(n / 10);
        s.append(digit_str(n % 10));
        assert(s@ =~= decimal(n as nat));
        s
    }
}

/// Distinct numbers have distinct decimal representations.
pub proof fn lemma_decimal_injective(a: nat, b: nat)
    requires
        decimal(a) == decimal(b),
    ensures
        a == b,
    decreases a,
{
    lemma_decimal_nonempty(a);
    lemma_decimal_nonempty(b);
    if a < 10 && b < 10 {
        assert(decimal(a)[0] == digit_char(a));
        assert(decimal(b)[0] == digit_char(b));
        lemma_digit_char_injective(a, b);
    } else if a < 10 {
        lemma_decimal_nonempty(b / 10);
        assert(decimal(b).len() >= 2);
        assert(decimal(a).len() == 1);
    } else if b < 10 {
        lemma_decimal_nonempty(a / 10);
        assert(decimal(a).len() >= 2);
        assert(decimal(b).len() == 1);
    } else {
        assert(decimal(a).drop_last() =~= decimal(a / 10));
        assert(decimal(b).drop_last() =~= decimal(b / 10));
        assert(decimal(a).last() == digit_char(a % 10));
        assert(decimal(b).last() == digit_char(b % 10));
        lemma_decimal_injective(a / 10, b / 10);
        lemma_digit_char_injective(a % 10, b % 10);
    }
}

/// Distinct digits have distinct characters.
pub proof fn lemma_digit_char_injective(a: nat, b: nat)
    requires
        a < 10,
        b < 10,
        digit_char(a) == digit_char(b),
    ensures
        a == b,
{
    assert('0' != '1' && '0' != '2' && '0' != '3' && '0' != '4' && '0' != '5' && '0' != '6'
        && '0' != '7' && '0' != '8' && '0' != '9');
    assert('1' != '2' && '1' != '3' && '1' != '4' && '1' != '5' && '1' != '6' && '1' != '7'
        && '1' != '8' && '1' != '9');
    assert('2' != '3' && '2' != '4' && '2' != '5' && '2' != '6' && '2' != '7' && '2' != '8'
        && '2' != '9');
    assert('3' != '4' && '3' != '5' && '3' != '6' && '3' != '7' && '3' != '8' && '3' != '9');
    assert('4' != '5' && '4' != '6' && '4' != '7' && '4' != '8' && '4' != '9');
    assert('5' != '6' && '5' != '7' && '5' != '8' && '5' != '9');
    assert('6' != '7' && '6' != '8' && '6' != '9');
    assert('7' != '8' && '7' != '9');
    assert('8' != '9');
}

/// Whether `c` is a decimal digit.
pub open spec fn is_digit(c: char) -> bool {
    c == '0' || c == '1' || c == '2' || c == '3' || c == '4' || c == '5' || c == '6' || c == '7'
        || c == '8' || c == '9'
}

/// A decimal representation holds nothing but digits.
pub proof fn lemma_decimal_digits(n: nat)
    ensures
        forall|i: int| 0 <= i < decimal(n).len() ==> is_digit(#[trigger] decimal(n)[i]),
    decreases n,
{
    let d = decimal(n);
    if n >= 10 {
        lemma_decimal_digits(n / 10);
        assert forall|i: int| 0 <= i < d.len() implies is_digit(#[trigger] d[i]) by {
            if i < d.len() - 1 {
                assert(d[i] == decimal(n / 10)[i]);
            } else {
                assert(d[i] == digit_char(n % 10));
            }
        }
    } else {
        assert(d[0] == digit_char(n));
    }
}

/// One character replaced by another: the length stays, and so does every
/// other character.
pub proof fn lemma_replace_char(s: Seq<char>, from: char, to: char)
    ensures
        replace_spec(s, seq![from], seq![to]).len() == s.len(),
        forall|i: int|
            0 <= i < s.len() ==> #[trigger] replace_spec(s, seq![from], seq![to])[i] == if s[i]
                == from {
                to
            } else {
                s[i]
            },
    decreases s.len(),
{
    let r = replace_spec(s, seq![from], seq![to]);
    if s.len() >= 1 {
        let rest = replace_spec(s.skip(1), seq![from], seq![to]);
        lemma_replace_char(s.skip(1), from, to);
        assert(s.take(1) =~= seq![s[0]]);
        assert(seq![s[0]] == seq![from] <==> s[0] == from) by {
            if seq![s[0]] == seq![from] {
                assert(seq![s[0]][0] == seq![from][0]);
            }
        }
        assert(r == seq![if s[0] == from {
            to
        } else {
            s[0]
        }] + rest);
        assert forall|i: int| 0 <= i < s.len() implies #[trigger] r[i] == if s[i] == from {
            to
        } else {
            s[i]
        } by {
            if i > 0 {
                assert(r[i] == rest[i - 1]);
                assert(s.skip(1)[i - 1] == s[i]);
            }
        }
    }
}

/// A decimal representation has at least one digit.
pub proof fn lemma_decimal_nonempty(n: nat)
    ensures
        decimal(n).len() >= 1,
    decreases n,
{
    if n >= 10 {
        lemma_decimal_nonempty(n / 10);
    }
}

/// `s` with every occurrence of `from`, found from left to right without
/// overlap, replaced by `to`. An empty `from` leaves `s` as it is.
pub open spec fn replace_spec(s: Seq<char>, from: Seq<char>, to: Seq<char>) -> Seq<char>
    decreases s.len(),
{
    if from.len() == 0 || s.len() < from.len() {
        s
    } else if s.take(from.len() as int) == from {
        to + replace_spec(s.skip(from.len() as int), from, to)
    } else {
        seq![s[0]] + replace_spec(s.skip(1), from, to)
    }
}

/// `s` with every occurrence of `from` replaced by `to`.
pub fn replace(s: &str, from: &str, to: &str) -> (r: String)
    requires
        from@.len() > 0,
    ensures
        r@ == replace_spec(s@, from@, to@),
{
    let n: usize = s.unicode_len();
    let m: usize = from.unicode_len();
    let mut out = String::new();
    let mut i: usize = 0;
    assert(s@.skip(0) =~= s@);
    assert(out@ + replace_spec(s@, from@, to@) =~= replace_spec(s@, from@, to@));
    while i < n && m <= n - i
        invariant
            i <= n,
            n == s@.len(),
            m == from@.len(),
            m > 0,
            out@ + replace_spec(s@.skip(i as int), from@, to@) == replace_spec(s@, from@, to@),
        decreases n - i,
    {
        let ghost rest = s@.skip(i as int);
        let ghost before = out@;
        if str_eq(s.substring_char(i, i + m), from) {
            assert(rest.take(m as int) =~= s@.subrange(i as int, i + m));
            out.append(to);
            i += m;
            assert(rest.skip(m as int) =~= s@.skip(i as int));
            assert(out@ + replace_spec(s@.skip(i as int), from@, to@) =~= before + (to@
                + replace_spec(rest.skip(m as int), from@, to@)));
        } else {
            assert(rest.take(m as int) =~= s@.subrange(i as int, i + m));
            out.append(s.substring_char(i, i + 1));
            assert(s@.subrange(i as int, i + 1) =~= seq![rest[0]]);
            i += 1;
            assert(rest.skip(1) =~= s@.skip(i as int));
            assert(out@ + replace_spec(s@.skip(i as int), from@, to@) =~= before + (seq![rest[0]]
                + replace_spec(rest.skip(1), from@, to@)));
        }
    }
    out.append(s.substring_char(i, n));
    assert(s@.subrange(i as int, n as int) =~= s@.skip(i as int));
    out
}

/// The pieces of `s` between the occurrences of `sep`, found from left to
/// right without overlap: one piece more than there are occurrences.
pub open spec fn split_spec(s: Seq<char>, sep: Seq<char>) -> Seq<Seq<char>>
    decreases s.len(),
{
    if sep.len() == 0 || s.len() < sep.len() {
        seq![s]
    } else if s.take(sep.len() as int) == sep {
        seq![Seq::<char>::empty()] + split_spec(s.skip(sep.len() as int), sep)
    } else {
        let rest = split_spec(s.skip(1), sep);
        seq![seq![s[0]] + rest[0]] + rest.skip(1)
    }
}

/// A split gives at least one piece.
pub proof fn lemma_split_nonempty(s: Seq<char>, sep: Seq<char>)
    ensures
        split_spec(s, sep).len() >= 1,
    decreases s.len(),
{
    if sep.len() == 0 || s.len() < sep.len() {
    } else if s.take(sep.len() as int) == sep {
    } else {
        lemma_split_nonempty(s.skip(1), sep);
    }
}

/// The pieces `tail` with `head` put before the first of them.
pub open spec fn prepend(head: Seq<char>, tail: Seq<Seq<char>>) -> Seq<Seq<char>> {
    seq![head + tail[0]] + tail.skip(1)
}

/// The pieces of `s` between the occurrences of `sep`.
pub fn split(s: &str, sep: &str) -> (r: Vec<String>)
    requires
        sep@.len() > 0,
    ensures
        views(r@) == split_spec(s@, sep@),
{
    let n: usize = s.unicode_len();
    let m: usize = sep.unicode_len();
    let mut pieces: Vec<String> = Vec::new();
    let mut current = String::new();
    let mut i: usize = 0;
    proof {
        lemma_split_nonempty(s@, sep@);
        assert(s@.skip(0) =~= s@);
        assert(views(pieces@) + prepend(current@, split_spec(s@, sep@)) =~= split_spec(s@, sep@));
    }
    while i < n && m <= n - i
        invariant
            i <= n,
            n == s@.len(),
            m == sep@.len(),
            m > 0,
            views(pieces@) + prepend(current@, split_spec(s@.skip(i as int), sep@)) == split_spec(
                s@,
                sep@,
            ),
        decreases n - i,
    {
        let ghost rest = s@.skip(i as int);
        let ghost done = views(pieces@);
        let ghost head = current@;
        assert(rest.take(m as int) =~= s@.subrange(i as int, i + m));
        if str_eq(s.substring_char(i, i + m), sep) {
            pieces.push(current);
            current = String::new();
            i += m;
            proof {
                let tail = split_spec(rest.skip(m as int), sep@);
                lemma_split_nonempty(rest.skip(m as int), sep@);
                assert(rest.skip(m as int) =~= s@.skip(i as int));
                assert(views(pieces@) =~= done.push(head));
                assert(prepend(head, seq![Seq::<char>::empty()] + tail) =~= seq![head] + tail);
                assert(prepend(current@, tail) =~= tail);
                assert(views(pieces@) + prepend(current@, tail) =~= done + prepend(
                    head,
                    seq![Seq::<char>::empty()] + tail,
                ));
            }
        } else {
            current.append(s.substring_char(i, i + 1));
            assert(s@.subrange(i as int, i + 1) =~= seq![rest[0]]);
            i += 1;
            proof {
                let tail = split_spec(rest.skip(1), sep@);
                lemma_split_nonempty(rest.skip(1), sep@);
                assert(rest.skip(1) =~= s@.skip(i as int));
                let stepped = seq![seq![rest[0]] + tail[0]] + tail.skip(1);
                assert(head + stepped[0] =~= current@ + tail[0]);
                assert(stepped.skip(1) =~= tail.skip(1));
                assert(prepend(head, stepped) =~= prepend(current@, tail));
            }
        }
    }
    let ghost done = views(pieces@);
    let ghost head = current@;
    let ghost rest = s@.skip(i as int);
    current.append(s.substring_char(i, n));
    pieces.push(current);
    proof {
        assert(s@.subrange(i as int, n as int) =~= rest);
        assert(split_spec(rest, sep@) =~= seq![rest]);
        assert(prepend(head, seq![rest]) =~= seq![head + rest]);
        assert(views(pieces@) =~= done + seq![head + rest]);
    }
    pieces
}

/// A copy of `v`.
pub fn clone_strings(v: &Vec<String>) -> (r: Vec<String>)
    ensures
        views(r@) == views(v@),
{
    let mut out: Vec<String> = Vec::new();
    let mut i: usize = 0;
    while i < v.len()
        invariant
            i <= v@.len(),
            out@.len() == i,
            forall|k: int| 0 <= k < i ==> out@[k]@ == v@[k]@,
        decreases v@.len() - i,
    {
        out.push(v[i].clone());
        i += 1;
    }
    assert(views(out@) =~= views(v@));
    out
}

/// A copy of `s`.
pub fn clone_optional(s: &Option<String>) -> (r: Option<String>)
    ensures
        r is Some == s is Some,
        r is Some ==> r->0@ == s->0@,
{
    match s {
        Some(x) => Some(x.clone()),
        None => None,
    }
}

/// Two string slices hold the same characters.
pub fn str_eq(a: &str, b: &str) -> (r: bool)
    ensures
        r == (a@ == b@),
{
    a.to_owned() == b.to_owned()
}

} // verus!
