use vstd::prelude::*;

verus! {

/// `str`'s own `==`, which std documents as the comparison of the two strings'
/// contents: it holds where the two hold the same characters.
pub assume_specification[ <str as PartialEq>::eq ](a: &str, b: &str) -> (r: bool)
    ensures
        r == (a@ == b@),
;

/// `String::push`, which std documents as appending the character to the end of
/// the string.
pub assume_specification[ std::string::String::push ](s: &mut std::string::String, c: char)
    ensures
        final(s)@ == old(s)@.push(c),
;

/// `s` with every double quote written twice.
pub open spec fn escape_quotes(s: Seq<char>) -> Seq<char>
    decreases s.len(),
{
    if s.len() == 0 {
        s
    } else if s.last() == '"' {
        escape_quotes(s.drop_last()).push('"').push('"')
    } else {
        escape_quotes(s.drop_last()).push(s.last())
    }
}

/// `s` as a quoted identifier: between double quotes, its own double quotes
/// written twice.
pub open spec fn quoted(s: Seq<char>) -> Seq<char> {
    seq!['"'] + escape_quotes(s) + seq!['"']
}

/// `parts` in a row, with `separator` between each two.
pub open spec fn join(parts: Seq<Seq<char>>, separator: Seq<char>) -> Seq<char>
    decreases parts.len(),
{
    if parts.len() == 0 {
        Seq::empty()
    } else if parts.len() == 1 {
        parts[0]
    } else {
        join(parts.drop_last(), separator) + separator + parts.last()
    }
}

/// The character that stands for a digit.
pub open spec fn digit(d: nat) -> char {
    if d == 0 {
        '0'
    } else if d == 1 {
        '1'
    } else if d == 2 {
        '2'
    } else if d == 3 {
        '3'
    } else if d == 4 {
        '4'
    } else if d == 5 {
        '5'
    } else if d == 6 {
        '6'
    } else if d == 7 {
        '7'
    } else if d == 8 {
        '8'
    } else {
        '9'
    }
}

/// `n` written in decimal, without leading zeros.
pub open spec fn decimal(n: nat) -> Seq<char>
    decreases n,
{
    if n < 10 {
        seq![digit(n)]
    } else {
        decimal(n / 10).push(digit(n % 10))
    }
}

/// Whether `needle` stands somewhere in `text`, in one piece.
pub open spec fn occurs_in(needle: Seq<char>, text: Seq<char>) -> bool {
    exists|at: int|
        0 <= at && at + needle.len() <= text.len() && #[trigger] text.subrange(
            at,
            at + needle.len(),
        ) == needle
}

/// The contents of a list of strings.
pub open spec fn texts_of(strings: Seq<String>) -> Seq<Seq<char>> {
    strings.map_values(|s: String| s@)
}

/// Writes every double quote of `name` twice.
pub fn escape(name: &str) -> (r: String)
    ensures
        r@ == escape_quotes(name@),
{
    let mut out = String::new();
    for c in it: name.chars()
        invariant
            it.seq() == name@,
            out@ == escape_quotes(name@.take(it.index() as int)),
    {
        assert(name@.take(it.index() + 1).drop_last() == name@.take(it.index() as int));
        if c == '"' {
            out.push('"');
            out.push('"');
        } else {
            out.push(c);
        }
    }
    assert(name@.take(name@.len() as int) == name@);
    out
}

/// Puts `parts` in a row, with `separator` between each two.
pub fn join_strings(parts: &Vec<String>, separator: &str) -> (r: String)
    ensures
        r@ == join(texts_of(parts@), separator@),
{
    let mut out = String::new();
    let ghost texts = texts_of(parts@);
    let mut i: usize = 0;
    while i < parts.len()
        invariant
            i <= parts.len(),
            texts == texts_of(parts@),
            out@ == join(texts.take(i as int), separator@),
        decreases parts.len() - i,
    {
        assert(texts.take(i + 1).drop_last() == texts.take(i as int));
        assert(texts.take(i + 1).last() == parts@[i as int]@);
        if i > 0 {
            out.append(separator);
        } else {
            assert(texts.take(1)[0] == parts@[0]@);
            assert(out@ + parts@[0]@ =~= parts@[0]@);
        }
        out.append(parts[i].as_str());
        i += 1;
    }
    assert(texts.take(i as int) == texts);
    out
}

/// The character for the digit `d`.
pub fn digit_char(d: u128) -> (c: char)
    requires
        d < 10,
    ensures
        c == digit(d as nat),
{
    if d == 0 {
        '0'
    } else if d == 1 {
        '1'
    } else if d == 2 {
        '2'
    } else if d == 3 {
        '3'
    } else if d == 4 {
        '4'
    } else if d == 5 {
        '5'
    } else if d == 6 {
        '6'
    } else if d == 7 {
        '7'
    } else if d == 8 {
        '8'
    } else {
        '9'
    }
}

/// Writes `n` in decimal.
pub fn decimal_string(n: u128) -> (r: String)
    ensures
        r@ == decimal(n as nat),
    decreases n,
{
    if n < 10 {
        let mut out = String::new();
        out.push(digit_char(n));
        assert(out@ =~= seq![digit(n as nat)]);
        out
    } else {
        let mut out = decimal_string(n / 10);
        out.push(digit_char(n % 10));
        out
    }
}

/// What stands in a text still stands in it when more text is put before and
/// behind.
pub proof fn lemma_occurs_in_longer(
    needle: Seq<char>,
    text: Seq<char>,
    before: Seq<char>,
    behind: Seq<char>,
)
    requires
        occurs_in(needle, text),
    ensures
        occurs_in(needle, before + text + behind),
{
    let at = choose|at: int|
        0 <= at && at + needle.len() <= text.len() && #[trigger] text.subrange(
            at,
            at + needle.len(),
        ) == needle;
    let whole = before + text + behind;
    let there = before.len() + at;
    assert(whole.subrange(there, there + needle.len()) =~= text.subrange(at, at + needle.len()));
}

/// Every text stands in itself.
pub proof fn lemma_occurs_in_itself(text: Seq<char>)
    ensures
        occurs_in(text, text),
{
    assert(text.subrange(0int, 0int + text.len()) =~= text);
}

/// Each of the parts that were joined stands in the result.
pub proof fn lemma_join_holds_each(parts: Seq<Seq<char>>, separator: Seq<char>, i: int)
    requires
        0 <= i < parts.len(),
    ensures
        occurs_in(parts[i], join(parts, separator)),
    decreases parts.len(),
{
    if parts.len() == 1 {
        lemma_occurs_in_itself(parts[0]);
    } else if i == parts.len() - 1 {
        lemma_occurs_in_itself(parts.last());
        lemma_occurs_in_longer(
            parts.last(),
            parts.last(),
            join(parts.drop_last(), separator) + separator,
            Seq::empty(),
        );
        assert(join(parts.drop_last(), separator) + separator + parts.last() + Seq::<
            char,
        >::empty() =~= join(parts, separator));
    } else {
        lemma_join_holds_each(parts.drop_last(), separator, i);
        lemma_occurs_in_longer(
            parts[i],
            join(parts.drop_last(), separator),
            Seq::empty(),
            separator + parts.last(),
        );
        assert(Seq::<char>::empty() + join(parts.drop_last(), separator) + (separator
            + parts.last()) =~= join(parts, separator));
    }
}

/// The escaped form of a text tells what the text was: two texts with the same
/// escaped form are the same.
pub proof fn lemma_escape_is_injective(a: Seq<char>, b: Seq<char>)
    requires
        escape_quotes(a) == escape_quotes(b),
    ensures
        a == b,
    decreases a.len() + b.len(),
{
    lemma_escape_is_no_shorter(a);
    lemma_escape_is_no_shorter(b);
    if a.len() == 0 || b.len() == 0 {
        assert(a =~= b);
    } else {
        let ea = escape_quotes(a.drop_last());
        let eb = escape_quotes(b.drop_last());
        lemma_escape_is_no_shorter(a.drop_last());
        lemma_escape_is_no_shorter(b.drop_last());
        if a.last() == '"' {
            assert(escape_quotes(a).last() == '"');
            if b.last() != '"' {
                assert(escape_quotes(b).last() == b.last());
                assert(false);
            }
            assert(ea =~= escape_quotes(a).drop_last().drop_last());
            assert(eb =~= escape_quotes(b).drop_last().drop_last());
        } else {
            assert(escape_quotes(a).last() == a.last());
            if b.last() == '"' {
                assert(escape_quotes(b).last() == '"');
                assert(false);
            }
            assert(ea =~= escape_quotes(a).drop_last());
            assert(eb =~= escape_quotes(b).drop_last());
        }
        lemma_escape_is_injective(a.drop_last(), b.drop_last());
        assert(a =~= a.drop_last().push(a.last()));
        assert(b =~= b.drop_last().push(b.last()));
    }
}

/// The escaped form of a text is at least as long as the text.
pub proof fn lemma_escape_is_no_shorter(s: Seq<char>)
    ensures
        escape_quotes(s).len() >= s.len(),
    decreases s.len(),
{
    if s.len() > 0 {
        lemma_escape_is_no_shorter(s.drop_last());
    }
}

/// A text without double quotes is its own escaped form.
pub proof fn lemma_escape_leaves_plain_text(s: Seq<char>)
    requires
        !s.contains('"'),
    ensures
        escape_quotes(s) == s,
    decreases s.len(),
{
    if s.len() > 0 {
        assert(s.last() == s[s.len() - 1]);
        assert forall|c: char| s.drop_last().contains(c) implies s.contains(c) by {
            let i = choose|i: int| 0 <= i < s.drop_last().len() && s.drop_last()[i] == c;
            assert(s[i] == c);
        }
        lemma_escape_leaves_plain_text(s.drop_last());
        assert(s.drop_last().push(s.last()) =~= s);
    }
}

/// Whether every double quote of a text stands in a pair of two that follow each
/// other, as the inside of a quoted identifier asks.
pub open spec fn quotes_are_paired(s: Seq<char>) -> bool
    decreases s.len(),
{
    if s.len() == 0 {
        true
    } else if s.last() != '"' {
        quotes_are_paired(s.drop_last())
    } else {
        s.len() >= 2 && s[s.len() - 2] == '"' && quotes_are_paired(s.drop_last().drop_last())
    }
}

/// In the escaped form of a text the double quotes are paired, so that a quoted
/// identifier ends at its last character and nowhere before.
pub proof fn lemma_escape_pairs_quotes(s: Seq<char>)
    ensures
        quotes_are_paired(escape_quotes(s)),
    decreases s.len(),
{
    if s.len() > 0 {
        lemma_escape_pairs_quotes(s.drop_last());
        let front = escape_quotes(s.drop_last());
        if s.last() == '"' {
            let whole = front.push('"').push('"');
            assert(whole.drop_last().drop_last() =~= front);
            assert(whole[whole.len() - 2] == '"');
        } else {
            assert(front.push(s.last()).drop_last() =~= front);
        }
    }
}

} // verus!
