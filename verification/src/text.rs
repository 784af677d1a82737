//! Text building blocks: decimal rendering of integers (used for revision
//! tokens and server-assigned ids) and the JSON-style quoting used when a
//! list of revisions is carried in a query string.

use vstd::prelude::*;

verus! {

/// Relies on String::push: appends the given char to the end of the string.
#[verifier::external_body]
pub(crate) fn push_char(s: &mut String, c: char)
    ensures
        final(s)@ == old(s)@.push(c),
{
    s.push(c);
}

/// The decimal digit character for `d`.
pub open spec fn spec_digit(d: int) -> char {
    if d == 0 {
        '0'
    } else if d == 1 {
        '1'
    } else if d == 2 {
        '2'
    } else if d == 3 {
        '3'
    } else if d == 4 {
        '4'
    } else if d == 5 {
        '5'
    } else if d == 6 {
        '6'
    } else if d == 7 {
        '7'
    } else if d == 8 {
        '8'
    } else {
        '9'
    }
}

/// The decimal rendering of a natural number, most significant digit first.
pub open spec fn spec_decimal(n: nat) -> Seq<char>
    decreases n,
{
    if n < 10 {
        seq![spec_digit(n as int)]
    } else {
        spec_decimal(n / 10).push(spec_digit((n % 10) as int))
    }
}

/// Whether a character is a decimal digit.
pub open spec fn spec_is_digit(c: char) -> bool {
    '0' <= c && c <= '9'
}

/// The value of a decimal digit character.
pub open spec fn spec_digit_val(c: char) -> int {
    if c == '0' {
        0
    } else if c == '1' {
        1
    } else if c == '2' {
        2
    } else if c == '3' {
        3
    } else if c == '4' {
        4
    } else if c == '5' {
        5
    } else if c == '6' {
        6
    } else if c == '7' {
        7
    } else if c == '8' {
        8
    } else {
        9
    }
}

/// Digit characters determine their values.
pub proof fn lemma_digit_injective(x: int, y: int)
    requires
        0 <= x < 10,
        0 <= y < 10,
        spec_digit(x) == spec_digit(y),
    ensures
        x == y,
{
    assert(spec_digit_val(spec_digit(x)) == x);
    assert(spec_digit_val(spec_digit(y)) == y);
}

/// Every character of a decimal rendering is a digit, and the rendering is
/// nonempty; numbers of ten or more render to two or more digits.
pub proof fn lemma_decimal_shape(n: nat)
    ensures
        spec_decimal(n).len() >= 1,
        n >= 10 ==> spec_decimal(n).len() >= 2,
        forall|i: int| 0 <= i < spec_decimal(n).len() ==> spec_is_digit(spec_decimal(n)[i]),
    decreases n,
{
    if n >= 10 {
        lemma_decimal_shape(n / 10);
    }
}

/// Distinct numbers render to distinct decimal strings.
pub proof fn lemma_decimal_injective(a: nat, b: nat)
    requires
        spec_decimal(a) == spec_decimal(b),
    ensures
        a == b,
    decreases a,
{
    lemma_decimal_shape(a);
    lemma_decimal_shape(b);
    if a < 10 && b < 10 {
        assert(spec_decimal(a) == seq![spec_digit(a as int)]);
        assert(spec_decimal(b) == seq![spec_digit(b as int)]);
        assert(spec_decimal(a)[0] == spec_digit(a as int));
        assert(spec_decimal(b)[0] == spec_digit(b as int));
        lemma_digit_injective(a as int, b as int);
    } else if a < 10 {
        assert(spec_decimal(a).len() == 1);
        assert(false);
    } else if b < 10 {
        assert(spec_decimal(b).len() == 1);
        assert(false);
    } else {
        let da = spec_decimal(a / 10);
        let db = spec_decimal(b / 10);
        assert(spec_decimal(a) == da.push(spec_digit((a % 10) as int)));
        assert(spec_decimal(b) == db.push(spec_digit((b % 10) as int)));
        assert(da.len() == db.len());
        assert(da =~= db) by {
            assert(forall|i: int|
                0 <= i < da.len() ==> da[i] == spec_decimal(a)[i] && db[i] == spec_decimal(
                    b,
                )[i]);
        }
        lemma_decimal_injective(a / 10, b / 10);
        let la = spec_decimal(a).len();
        assert(spec_decimal(a)[la - 1] == spec_digit((a % 10) as int));
        assert(spec_decimal(b)[la - 1] == spec_digit((b % 10) as int));
        lemma_digit_injective((a % 10) as int, (b % 10) as int);
        assert(a % 10 == b % 10);
        vstd::arithmetic::div_mod::lemma_fundamental_div_mod(a as int, 10);
        vstd::arithmetic::div_mod::lemma_fundamental_div_mod(b as int, 10);
    }
}

/// The digit character for `d`.
pub(crate) fn digit_char(d: u64) -> (c: char)
    requires
        d < 10,
    ensures
        c == spec_digit(d as int),
{
    if d == 0 {
        '0'
    } else if d == 1 {
        '1'
    } else if d == 2 {
        '2'
    } else if d == 3 {
        '3'
    } else if d == 4 {
        '4'
    } else if d == 5 {
        '5'
    } else if d == 6 {
        '6'
    } else if d == 7 {
        '7'
    } else if d == 8 {
        '8'
    } else {
        '9'
    }
}

/// Render a number in decimal.
pub fn u64_to_decimal(n: u64) -> (r: String)
    ensures
        r@ == spec_decimal(n as nat),
    decreases n,
{
    if n < 10 {
        let mut s = String::new();
        push_char(&mut s, digit_char(n));
        proof {
            assert(s@ =~= spec_decimal(n as nat));
        }
        s
    } else {
        let mut s = u64_to_decimal(n / 10);
        push_char(&mut s, digit_char(n % 10));
        s
    }
}

/// A revision token: the generation in decimal, a dash, then a tag in decimal.
pub open spec fn spec_rev_text(gen: nat, tag: nat) -> Seq<char> {
    spec_decimal(gen) + seq!['-'] + spec_decimal(tag)
}

/// Render a revision token.
pub fn rev_text(gen: u64, tag: u64) -> (r: String)
    ensures
        r@ == spec_rev_text(gen as nat, tag as nat),
{
    let mut s = u64_to_decimal(gen);
    push_char(&mut s, '-');
    let t = u64_to_decimal(tag);
    let r = s.concat(t.as_str());
    proof {
        assert(r@ =~= spec_rev_text(gen as nat, tag as nat));
    }
    r
}

/// Revision tokens of distinct generations are distinct, whatever their tags.
pub proof fn lemma_rev_text_gen(g1: nat, t1: nat, g2: nat, t2: nat)
    requires
        spec_rev_text(g1, t1) == spec_rev_text(g2, t2),
    ensures
        g1 == g2,
{
    lemma_decimal_shape(g1);
    lemma_decimal_shape(g2);
    let d1 = spec_decimal(g1);
    let d2 = spec_decimal(g2);
    let s1 = spec_rev_text(g1, t1);
    let s2 = spec_rev_text(g2, t2);
    if d1.len() == d2.len() {
        assert(d1 =~= d2) by {
            assert(forall|i: int| 0 <= i < d1.len() ==> d1[i] == s1[i] && d2[i] == s2[i]);
        }
        lemma_decimal_injective(g1, g2);
    } else if d1.len() < d2.len() {
        assert(s1[d1.len() as int] == '-');
        assert(s2[d1.len() as int] == d2[d1.len() as int]);
        assert(spec_is_digit(d2[d1.len() as int]));
        assert(false);
    } else {
        assert(s2[d2.len() as int] == '-');
        assert(s1[d2.len() as int] == d1[d2.len() as int]);
        assert(spec_is_digit(d1[d2.len() as int]));
        assert(false);
    }
}

/// A revision token is never empty.
pub proof fn lemma_rev_text_nonempty(gen: nat, tag: nat)
    ensures
        spec_rev_text(gen, tag).len() > 0,
{
    lemma_decimal_shape(gen);
    lemma_decimal_shape(tag);
}

/// How one character is quoted inside a JSON string literal: quotes and
/// backslashes gain a leading backslash, all else stands as it is.
pub open spec fn spec_quote_char(c: char) -> Seq<char> {
    if c == '"' || c == '\\' {
        seq!['\\', c]
    } else {
        seq![c]
    }
}

/// The quoted body of a JSON string literal.
pub open spec fn spec_quote_body(s: Seq<char>) -> Seq<char>
    decreases s,
{
    if s.len() == 0 {
        Seq::<char>::empty()
    } else {
        spec_quote_char(s[0]) + spec_quote_body(s.drop_first())
    }
}

/// Quoting distributes over push.
pub proof fn lemma_quote_body_push(s: Seq<char>, c: char)
    ensures
        spec_quote_body(s.push(c)) == spec_quote_body(s) + spec_quote_char(c),
    decreases s.len(),
{
    if s.len() == 0 {
        assert(s.push(c)[0] == c);
        assert(s.push(c).drop_first() =~= Seq::<char>::empty());
        assert(spec_quote_body(Seq::<char>::empty()) == Seq::<char>::empty());
        assert(spec_quote_body(s.push(c)) =~= spec_quote_body(s) + spec_quote_char(c));
    } else {
        assert(s.push(c)[0] == s[0]);
        assert(s.push(c).drop_first() =~= s.drop_first().push(c));
        assert(spec_quote_body(s.push(c)) == spec_quote_char(s[0]) + spec_quote_body(
            s.drop_first().push(c),
        ));
        lemma_quote_body_push(s.drop_first(), c);
        assert(spec_quote_body(s) == spec_quote_char(s[0]) + spec_quote_body(s.drop_first()));
        assert(spec_quote_char(s[0]) + (spec_quote_body(s.drop_first()) + spec_quote_char(c))
            =~= (spec_quote_char(s[0]) + spec_quote_body(s.drop_first())) + spec_quote_char(c));
        assert(spec_quote_body(s.push(c)) == spec_quote_body(s) + spec_quote_char(c));
    }
}

/// A JSON string literal: the quoted body between double quotes.
pub open spec fn spec_json_string(s: Seq<char>) -> Seq<char> {
    seq!['"'] + spec_quote_body(s) + seq!['"']
}

/// Render a JSON string literal.
pub fn json_string(s: &str) -> (r: String)
    ensures
        r@ == spec_json_string(s@),
{
    let mut out = String::new();
    push_char(&mut out, '"');
    let len = s.unicode_len();
    for i in 0..len
        invariant
            len == s@.len(),
            out@ == seq!['"'] + spec_quote_body(s@.take(i as int)),
    {
        let c = s.get_char(i);
        if c == '"' || c == '\\' {
            push_char(&mut out, '\\');
        }
        push_char(&mut out, c);
        proof {
            lemma_quote_body_push(s@.take(i as int), s@[i as int]);
            assert(s@.take(i + 1) =~= s@.take(i as int).push(s@[i as int]));
            assert(out@ =~= seq!['"'] + spec_quote_body(s@.take(i + 1)));
        }
    }
    push_char(&mut out, '"');
    proof {
        assert(s@.take(len as int) =~= s@);
        assert(out@ =~= spec_json_string(s@));
    }
    out
}

/// The comma-separated body of a JSON list of string literals.
pub open spec fn spec_json_list_body(items: Seq<Seq<char>>) -> Seq<char>
    decreases items,
{
    if items.len() == 0 {
        Seq::<char>::empty()
    } else if items.len() == 1 {
        spec_json_string(items[0])
    } else {
        spec_json_string(items[0]) + seq![','] + spec_json_list_body(items.drop_first())
    }
}

/// A JSON list of string literals.
pub open spec fn spec_json_list(items: Seq<Seq<char>>) -> Seq<char> {
    seq!['['] + spec_json_list_body(items) + seq![']']
}

/// The list body distributes over push.
pub proof fn lemma_json_list_body_push(items: Seq<Seq<char>>, x: Seq<char>)
    ensures
        spec_json_list_body(items.push(x)) == if items.len() == 0 {
            spec_json_string(x)
        } else {
            spec_json_list_body(items) + seq![','] + spec_json_string(x)
        },
    decreases items.len(),
{
    if items.len() == 0 {
        assert(items.push(x)[0] == x);
        assert(spec_json_list_body(items.push(x)) =~= spec_json_string(x));
    } else if items.len() == 1 {
        assert(items.push(x)[0] == items[0]);
        assert(items.push(x).drop_first() =~= seq![x]);
        assert(spec_json_list_body(seq![x]) == spec_json_string(x));
        assert(spec_json_list_body(items.push(x)) =~= spec_json_list_body(items) + seq![',']
            + spec_json_string(x));
    } else {
        assert(items.push(x)[0] == items[0]);
        assert(items.push(x).drop_first() =~= items.drop_first().push(x));
        assert(spec_json_list_body(items.push(x)) == spec_json_string(items[0]) + seq![',']
            + spec_json_list_body(items.drop_first().push(x)));
        lemma_json_list_body_push(items.drop_first(), x);
        assert(items.drop_first().len() >= 1);
        assert(spec_json_list_body(items) == spec_json_string(items[0]) + seq![',']
            + spec_json_list_body(items.drop_first()));
        assert(spec_json_string(items[0]) + seq![','] + (spec_json_list_body(items.drop_first())
            + seq![','] + spec_json_string(x)) =~= (spec_json_string(items[0]) + seq![',']
            + spec_json_list_body(items.drop_first())) + seq![','] + spec_json_string(x));
        assert(spec_json_list_body(items.push(x)) == spec_json_list_body(items) + seq![',']
            + spec_json_string(x));
    }
}

/// The views of a list of strings.
pub open spec fn strs_view(v: Seq<String>) -> Seq<Seq<char>> {
    v.map_values(|s: String| s@)
}

/// Render a JSON list of string literals.
pub fn json_list(items: &Vec<String>) -> (r: String)
    ensures
        r@ == spec_json_list(strs_view(items@)),
{
    let mut out = String::new();
    push_char(&mut out, '[');
    let n = items.len();
    for i in 0..n
        invariant
            n == items@.len(),
            out@ == seq!['['] + spec_json_list_body(strs_view(items@).take(i as int)),
    {
        if i > 0 {
            push_char(&mut out, ',');
        }
        let q = json_string(items[i].as_str());
        out = out.concat(q.as_str());
        proof {
            lemma_json_list_body_push(strs_view(items@).take(i as int), items@[i as int]@);
            assert(strs_view(items@).take(i + 1) =~= strs_view(items@).take(i as int).push(
                items@[i as int]@,
            ));
            assert(out@ =~= seq!['['] + spec_json_list_body(strs_view(items@).take(i + 1)));
        }
    }
    push_char(&mut out, ']');
    proof {
        assert(strs_view(items@).take(n as int) =~= strs_view(items@));
        assert(out@ =~= spec_json_list(strs_view(items@)));
    }
    out
}

} // verus!
