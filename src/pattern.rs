use vstd::prelude::*;

verus! {

/// The characters that a regular expression escapes to match them as they
/// are, in the extended and in the Perl-compatible syntax alike.
pub open spec fn is_regex_special(c: char) -> bool {
    c == '\\' || c == '.' || c == '[' || c == '(' || c == ')' || c == '*' || c == '+' || c == '?'
        || c == '{' || c == '|' || c == '^' || c == '$'
}

/// `s` with a backslash before each special character.
pub open spec fn regex_escaped(s: Seq<char>) -> Seq<char>
    decreases s.len(),
{
    if s.len() == 0 {
        Seq::empty()
    } else {
        let c = s.last();
        regex_escaped(s.drop_last()) + if is_regex_special(c) {
            seq!['\\', c]
        } else {
            seq![c]
        }
    }
}

/// A regular expression that matches `value` and nothing else.
pub open spec fn exact_value_pattern_of(value: Seq<char>) -> Seq<char> {
    seq!['^'] + regex_escaped(value) + seq!['$']
}

/// A regular expression that matches `value` and nothing else, for a store
/// that removes values by pattern.
pub fn exact_value_pattern(value: &str) -> (r: String)
    ensures
        r@ == exact_value_pattern_of(value@),
{
    let n = value.unicode_len();
    let mut r = String::from_str("^");
    proof {
        reveal_strlit("^");
        reveal_strlit("\\");
        reveal_strlit("$");
    }
    assert(value@.take(0) =~= Seq::<char>::empty());
    assert(r@ =~= seq!['^'] + regex_escaped(value@.take(0)));
    let mut i: usize = 0;
    while i < n
        invariant
            n == value@.len(),
            i <= n,
            r@ == seq!['^'] + regex_escaped(value@.take(i as int)),
            "\\"@ == seq!['\\'],
        decreases n - i,
    {
        let c = value.get_char(i);
        let one = value.substring_char(i, i + 1);
        assert(one@ =~= seq![c]);
        assert(value@.take(i as int + 1).drop_last() =~= value@.take(i as int));
        assert(value@.take(i as int + 1).last() == c);
        if c == '\\' || c == '.' || c == '[' || c == '(' || c == ')' || c == '*' || c == '+' || c
            == '?' || c == '{' || c == '|' || c == '^' || c == '$' {
            r.append("\\");
        }
        r.append(one);
        assert(r@ =~= seq!['^'] + regex_escaped(value@.take(i as int + 1)));
        i += 1;
    }
    assert(value@.take(n as int) =~= value@);
    r.append("$");
    assert(r@ =~= exact_value_pattern_of(value@));
    r
}

} // verus!
