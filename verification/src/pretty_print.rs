//! Row order and row labels of the tables that describe a data set.
//!
//! A data set's look-up table holds entries made of an optional ID and an
//! optional name. A description lists one row per entry, ordered by ID
//! (an entry without an ID is ordered as ID 0, and entries with the same
//! order key keep their relative order), labelled by its name and its ID,
//! with "Unset" standing for a missing one.

use vstd::prelude::*;

verus! {

/// Identifier of a body or frame.
pub type NaifId = i32;

/// One entry of a look-up table: its ID and its name, each optional.
pub type LutEntry = (Option<NaifId>, Option<String>);

/// The key by which entries are ordered: the ID, or 0 without one.
pub open spec fn entry_key(e: LutEntry) -> int {
    match e.0 {
        Some(id) => id as int,
        None => 0,
    }
}

/// The entries are in non-decreasing key order.
pub open spec fn sorted_by_key(s: Seq<LutEntry>) -> bool {
    forall|i: int, j: int| 0 <= i < j < s.len() ==> entry_key(s[i]) <= entry_key(s[j])
}

/// Whether an entry's key is `k`.
pub open spec fn key_is(k: int) -> spec_fn(LutEntry) -> bool {
    |e: LutEntry| entry_key(e) == k
}

/// The entries of `s` whose key is `k`, in their order in `s`.
pub open spec fn with_key(s: Seq<LutEntry>, k: int) -> Seq<LutEntry> {
    s.filter(key_is(k))
}

/// The order key of an entry.
pub fn entry_sort_key(e: &LutEntry) -> (res: NaifId)
    ensures
        res as int == entry_key(*e),
{
    match e.0 {
        Some(id) => id,
        None => 0,
    }
}

/// Orders look-up table entries by key, keeping the relative order of
/// entries with equal keys (a stable sort).
pub fn order_entries(entries: Vec<LutEntry>) -> (res: Vec<LutEntry>)
    ensures
        res.len() == entries.len(),
        res@.to_multiset() == entries@.to_multiset(),
        sorted_by_key(res@),
        forall|i: int, j: int|
            0 <= i < j < res.len() ==> match (#[trigger] res@[i].0, #[trigger] res@[j].0) {
                (Some(a), Some(b)) => a <= b,
                (Some(a), None) => a <= 0,
                (None, Some(b)) => 0 <= b,
                (None, None) => true,
            },
        forall|k: int| #[trigger] with_key(res@, k) == with_key(entries@, k),
{
    let ghost orig = entries@;
    let mut rest = entries;
    let mut out: Vec<LutEntry> = Vec::new();
    proof {
        assert(orig.skip(orig.len() as int) =~= Seq::<LutEntry>::empty());
        assert forall|k: int| #[trigger] with_key(out@, k) == with_key(orig.skip(rest.len() as int), k) by {
            assert(out@ =~= Seq::<LutEntry>::empty());
        }
        assert(rest@ =~= orig.take(rest.len() as int));
        assert(out@.to_multiset() =~= orig.skip(rest.len() as int).to_multiset()) by {
            assert(out@ =~= orig.skip(rest.len() as int));
        }
    }
    while rest.len() > 0
        invariant
            rest.len() <= orig.len(),
            rest@ == orig.take(rest.len() as int),
            out.len() + rest.len() == orig.len(),
            out@.to_multiset() == orig.skip(rest.len() as int).to_multiset(),
            sorted_by_key(out@),
            forall|k: int| #[trigger] with_key(out@, k) == with_key(orig.skip(rest.len() as int), k),
        decreases rest.len(),
    {
        let ghost old_out = out@;
        let ghost old_len = rest.len();
        let e = rest.pop().unwrap();
        let key = entry_sort_key(&e);
        let mut p: usize = 0;
        while p < out.len() && entry_sort_key(&out[p]) < key
            invariant
                p <= out.len(),
                out@ == old_out,
                forall|i: int| 0 <= i < p ==> entry_key(#[trigger] out@[i]) < key,
            decreases out.len() - p,
        {
            p = p + 1;
        }
        proof {
            // every entry at or after p has a key of at least `key`
            assert forall|i: int| p <= i < old_out.len() implies entry_key(#[trigger] old_out[i])
                >= key by {
                assert(entry_key(old_out[p as int]) >= key);
                assert(sorted_by_key(old_out));
            }
            lemma_insert_keeps_classes(old_out, p as int, e, orig, old_len as int);
        }
        out.insert(p, e);
        proof {
            assert(rest@ =~= orig.take(rest.len() as int));
            old_out.insert_ensures(p as int, e);
            let tail = orig.skip(old_len as int);
            assert(orig.skip(rest.len() as int) =~= tail.insert(0, e));
            vstd::seq_lib::to_multiset_insert(tail, 0, e);
            vstd::seq_lib::to_multiset_insert(old_out, p as int, e);
        }
    }
    out
}

/// Inserting `e` into the sorted `out` after every entry of smaller key and
/// before every other entry keeps `out` sorted, and extends its class of
/// entries with the key of `e` at the front.
proof fn lemma_insert_keeps_classes(
    out: Seq<LutEntry>,
    p: int,
    e: LutEntry,
    orig: Seq<LutEntry>,
    len: int,
)
    requires
        0 <= p <= out.len(),
        1 <= len <= orig.len(),
        e == orig[len - 1],
        sorted_by_key(out),
        forall|i: int| 0 <= i < p ==> entry_key(#[trigger] out[i]) < entry_key(e),
        forall|i: int| p <= i < out.len() ==> entry_key(#[trigger] out[i]) >= entry_key(e),
        forall|k: int| #[trigger] with_key(out, k) == with_key(orig.skip(len), k),
    ensures
        sorted_by_key(out.insert(p, e)),
        forall|k: int| #[trigger] with_key(out.insert(p, e), k) == with_key(orig.skip(len - 1), k),
{
    let ins = out.insert(p, e);
    out.insert_ensures(p, e);
    assert(sorted_by_key(ins)) by {
        assert forall|i: int, j: int| 0 <= i < j < ins.len() implies entry_key(ins[i]) <= entry_key(
            ins[j],
        ) by {
            if j < p {
            } else if j == p {
                assert(ins[i] == out[i]);
            } else if i < p {
                assert(ins[j] == out[j - 1]);
            } else if i == p {
                assert(ins[j] == out[j - 1]);
            } else {
                assert(ins[i] == out[i - 1]);
                assert(ins[j] == out[j - 1]);
            }
        }
    }
    let front = out.subrange(0, p);
    let back = out.subrange(p, out.len() as int);
    assert(out =~= front + back);
    assert(ins =~= front + (seq![e] + back));
    assert(orig.skip(len - 1) =~= seq![e] + orig.skip(len));
    assert forall|k: int| #[trigger] with_key(ins, k) == with_key(orig.skip(len - 1), k) by {
        let pred = key_is(k);
        Seq::filter_distributes_over_add(front, seq![e] + back, pred);
        Seq::filter_distributes_over_add(front, back, pred);
        back.lemma_filter_prepend(e, pred);
        orig.skip(len).lemma_filter_prepend(e, pred);
        assert(with_key(out, k) == front.filter(pred) + back.filter(pred));
        assert(with_key(ins, k) == front.filter(pred) + (seq![e] + back).filter(pred));
        assert(with_key(out, k) == with_key(orig.skip(len), k));
        if k == entry_key(e) {
            assert forall|i: int| 0 <= i < front.len() implies !pred(#[trigger] front[i]) by {
                assert(front[i] == out[i]);
            }
            assert(front.all(|x: LutEntry| !pred(x)));
            front.lemma_all_neg_filter_empty(pred);
            assert(front.filter(pred) =~= Seq::<LutEntry>::empty());
            assert((seq![e] + back).filter(pred) =~= seq![e] + back.filter(pred));
            assert(with_key(ins, k) =~= seq![e] + back.filter(pred));
            assert(with_key(out, k) =~= back.filter(pred));
            assert(with_key(orig.skip(len - 1), k) == seq![e] + with_key(orig.skip(len), k));
        } else {
            assert((seq![e] + back).filter(pred) =~= back.filter(pred));
            assert(with_key(ins, k) =~= front.filter(pred) + back.filter(pred));
            assert(with_key(orig.skip(len - 1), k) =~= with_key(orig.skip(len), k));
        }
    }
}

/// The character of decimal digit `d`.
pub open spec fn digit_char(d: int) -> char {
    if d == 0 {
        '0'
    } else if d == 1 {
        '1'
    } else if d == 2 {
        '2'
    } else if d == 3 {
        '3'
    } else if d == 4 {
        '4'
    } else if d == 5 {
        '5'
    } else if d == 6 {
        '6'
    } else if d == 7 {
        '7'
    } else if d == 8 {
        '8'
    } else {
        '9'
    }
}

/// The decimal digits of `n`, most significant first, without leading zeros.
pub open spec fn decimal_digits(n: nat) -> Seq<char>
    decreases n,
{
    if n < 10 {
        seq![digit_char(n as int)]
    } else {
        decimal_digits(n / 10).push(digit_char((n % 10) as int))
    }
}

/// The decimal notation of `i`: a minus sign for a negative number, then
/// the digits of its magnitude.
pub open spec fn decimal(i: int) -> Seq<char> {
    if i < 0 {
        seq!['-'] + decimal_digits((-i) as nat)
    } else {
        decimal_digits(i as nat)
    }
}

/// The one-character string of digit `d`.
fn digit_str(d: u64) -> (res: &'static str)
    requires
        d < 10,
    ensures
        res@ == seq![digit_char(d as int)],
{
    if d == 0 {
        proof {
            reveal_strlit("0");
        }
        "0"
    } else if d == 1 {
        proof {
            reveal_strlit("1");
        }
        "1"
    } else if d == 2 {
        proof {
            reveal_strlit("2");
        }
        "2"
    } else if d == 3 {
        proof {
            reveal_strlit("3");
        }
        "3"
    } else if d == 4 {
        proof {
            reveal_strlit("4");
        }
        "4"
    } else if d == 5 {
        proof {
            reveal_strlit("5");
        }
        "5"
    } else if d == 6 {
        proof {
            reveal_strlit("6");
        }
        "6"
    } else if d == 7 {
        proof {
            reveal_strlit("7");
        }
        "7"
    } else if d == 8 {
        proof {
            reveal_strlit("8");
        }
        "8"
    } else {
        proof {
            reveal_strlit("9");
        }
        "9"
    }
}

/// Appends the decimal digits of `n` to `s`.
fn push_decimal_digits(s: &mut String, n: u64)
    ensures
        final(s)@ == old(s)@ + decimal_digits(n as nat),
    decreases n,
{
    if n >= 10 {
        push_decimal_digits(s, n / 10);
    }
    s.append(digit_str(n % 10));
    proof {
        if n >= 10 {
            assert(final(s)@ =~= old(s)@ + decimal_digits(n as nat));
        }
    }
}

/// The label of an entry's name: the name, or "Unset" without one.
pub fn name_label(name: &Option<String>) -> (res: String)
    ensures
        match name {
            Some(n) => res@ == n@,
            None => res@ == "Unset"@,
        },
{
    match name {
        Some(n) => n.clone(),
        None => {
            proof {
                reveal_strlit("Unset");
            }
            String::from_str("Unset")
        },
    }
}

/// The label of an entry's ID: its decimal notation, or "Unset" without one.
pub fn id_label(id: Option<NaifId>) -> (res: String)
    ensures
        match id {
            Some(i) => res@ == decimal(i as int),
            None => res@ == "Unset"@,
        },
{
    match id {
        Some(i) => {
            let mut s = String::new();
            let wide: i64 = i as i64;
            if wide < 0 {
                proof {
                    reveal_strlit("-");
                }
                s.append("-");
                let magnitude: u64 = (-wide) as u64;
                push_decimal_digits(&mut s, magnitude);
            } else {
                push_decimal_digits(&mut s, wide as u64);
            }
            proof {
                assert(s@ =~= decimal(i as int));
            }
            s
        },
        None => {
            proof {
                reveal_strlit("Unset");
            }
            String::from_str("Unset")
        },
    }
}

/// The description order is determined by the entries alone: two
/// arrangements that are both in key order and agree, key by key, on the
/// order of the entries with that key are the same arrangement. So the
/// contract of `order_entries` admits exactly one result.
pub proof fn lemma_key_order_unique(a: Seq<LutEntry>, b: Seq<LutEntry>)
    requires
        sorted_by_key(a),
        sorted_by_key(b),
        forall|k: int| #[trigger] with_key(a, k) == with_key(b, k),
    ensures
        a == b,
    decreases a.len() + b.len(),
{
    reveal(Seq::filter);
    if a.len() == 0 && b.len() == 0 {
        assert(a =~= b);
    } else if a.len() == 0 || b.len() == 0 {
        // the last entry of the non-empty side has a non-empty class, the
        // empty side has none
        let (ne, e) = if a.len() == 0 { (b, a) } else { (a, b) };
        let k = entry_key(ne.last());
        assert(with_key(ne, k) == with_key(ne.drop_last(), k).push(ne.last()));
        assert(with_key(e, k) =~= Seq::<LutEntry>::empty());
        assert(with_key(ne, k) == with_key(e, k));
        assert(false);
    } else {
        let ka = entry_key(a.last());
        let kb = entry_key(b.last());
        assert(with_key(a, ka) == with_key(a.drop_last(), ka).push(a.last()));
        assert(with_key(b, kb) == with_key(b.drop_last(), kb).push(b.last()));
        // the largest key of each side occurs on the other side
        assert(with_key(b, ka).contains(a.last())) by {
            assert(with_key(a, ka).last() == a.last());
        }
        b.lemma_filter_contains_rev(key_is(ka), a.last());
        let ib = choose|i: int| 0 <= i < b.len() && b[i] == a.last();
        assert(entry_key(b[ib]) <= kb) by {
            if ib < b.len() - 1 {
                assert(entry_key(b[ib]) <= entry_key(b[b.len() - 1]));
            }
        }
        assert(with_key(a, kb).contains(b.last())) by {
            assert(with_key(b, kb).last() == b.last());
        }
        a.lemma_filter_contains_rev(key_is(kb), b.last());
        let ia = choose|i: int| 0 <= i < a.len() && a[i] == b.last();
        assert(entry_key(a[ia]) <= ka) by {
            if ia < a.len() - 1 {
                assert(entry_key(a[ia]) <= entry_key(a[a.len() - 1]));
            }
        }
        assert(ka == kb);
        assert(a.last() == b.last()) by {
            assert(with_key(a, ka).last() == a.last());
            assert(with_key(b, ka).last() == b.last());
        }
        let a2 = a.drop_last();
        let b2 = b.drop_last();
        assert forall|k: int| #[trigger] with_key(a2, k) == with_key(b2, k) by {
            assert(with_key(a, k) == if entry_key(a.last()) == k {
                with_key(a2, k).push(a.last())
            } else {
                with_key(a2, k)
            });
            assert(with_key(b, k) == if entry_key(b.last()) == k {
                with_key(b2, k).push(b.last())
            } else {
                with_key(b2, k)
            });
            if k == ka {
                assert(with_key(a2, k) =~= with_key(a, k).drop_last());
                assert(with_key(b2, k) =~= with_key(b, k).drop_last());
            }
        }
        lemma_key_order_unique(a2, b2);
        assert(a =~= b) by {
            assert(a =~= a2.push(a.last()));
            assert(b =~= b2.push(b.last()));
        }
    }
}

/// The order key of an entry is its ID itself, whatever its sign, and 0
/// for an entry without an ID.
pub proof fn lemma_entry_key_is_id(e: LutEntry)
    ensures
        forall|id: NaifId| e.0 == Some(id) ==> entry_key(e) == id as int,
        e.0 is None ==> entry_key(e) == 0,
{
}

/// The decimal notation reads back as the number it was made from: its
/// characters are digits (after a minus sign for a negative number), the
/// first digit is not a redundant zero, and their value is the number.
pub proof fn lemma_decimal_reads_back(i: int)
    ensures
        i < 0 ==> decimal(i)[0] == '-' && decimal(i).len() >= 2 && digits_value(
            decimal(i).drop_first(),
        ) == -i && all_digits(decimal(i).drop_first()) && decimal(i)[1] != '0',
        i >= 0 ==> digits_value(decimal(i)) == i && all_digits(decimal(i)) && decimal(i).len() >= 1
            && (decimal(i)[0] == '0' ==> i == 0),
{
    if i < 0 {
        lemma_digits_read_back((-i) as nat);
        assert((seq!['-'] + decimal_digits((-i) as nat)).drop_first() =~= decimal_digits(
            (-i) as nat,
        ));
    } else {
        lemma_digits_read_back(i as nat);
    }
}

/// Whether `c` is one of the ten decimal digit characters.
pub open spec fn is_digit(c: char) -> bool {
    '0' <= c && c <= '9'
}

/// Every character of `s` is a decimal digit.
pub open spec fn all_digits(s: Seq<char>) -> bool {
    forall|i: int| 0 <= i < s.len() ==> is_digit(#[trigger] s[i])
}

/// The value of a string of decimal digits, most significant first.
pub open spec fn digits_value(s: Seq<char>) -> int
    decreases s.len(),
{
    if s.len() == 0 {
        0
    } else {
        10 * digits_value(s.drop_last()) + (s.last() as int - '0' as int)
    }
}

proof fn lemma_digit_char(d: int)
    requires
        0 <= d < 10,
    ensures
        is_digit(digit_char(d)),
        digit_char(d) as int - '0' as int == d,
        digit_char(d) == '0' ==> d == 0,
{
}

proof fn lemma_digits_read_back(n: nat)
    ensures
        digits_value(decimal_digits(n)) == n,
        all_digits(decimal_digits(n)),
        decimal_digits(n).len() >= 1,
        decimal_digits(n)[0] == '0' ==> n == 0,
    decreases n,
{
    if n < 10 {
        lemma_digit_char(n as int);
        let s = decimal_digits(n);
        assert(s.drop_last() =~= Seq::<char>::empty());
        assert(digits_value(s.drop_last()) == 0);
        assert(digits_value(s) == 10 * digits_value(s.drop_last()) + (s.last() as int - '0' as int));
    } else {
        lemma_digits_read_back(n / 10);
        lemma_digit_char((n % 10) as int);
        let s = decimal_digits(n);
        assert(s.drop_last() =~= decimal_digits(n / 10));
        assert(s.last() == digit_char((n % 10) as int));
        vstd::arithmetic::div_mod::lemma_fundamental_div_mod(n as int, 10);
        assert(digits_value(s) == 10 * digits_value(s.drop_last()) + (s.last() as int - '0' as int));
        assert(s[0] == decimal_digits(n / 10)[0]);
        assert(n / 10 > 0);
    }
}

/// The entries of a given key, in order: none in an empty sequence, and
/// extending a sequence by one entry extends its class by that entry
/// exactly when the entry has that key.
pub proof fn lemma_with_key_by_entries(s: Seq<LutEntry>, x: LutEntry, k: int)
    ensures
        with_key(Seq::<LutEntry>::empty(), k) == Seq::<LutEntry>::empty(),
        entry_key(x) == k ==> with_key(s.push(x), k) == with_key(s, k).push(x),
        entry_key(x) != k ==> with_key(s.push(x), k) == with_key(s, k),
{
    reveal(Seq::filter);
    assert(s.push(x).drop_last() =~= s);
    assert(Seq::<LutEntry>::empty().filter(key_is(k)) =~= Seq::<LutEntry>::empty());
}

} // verus!
