use vstd::prelude::*;

verus! {

/// Compares a string with a piece of text.
pub fn text_is(s: &String, lit: &str) -> (res: bool)
    ensures
        res == (s@ == lit@),
{
    let other = String::from_str(lit);
    *s == other
}

/// The text with every decimal comma written as a decimal point.
pub open spec fn comma_as_point(s: Seq<char>) -> Seq<char> {
    s.map_values(|c: char| if c == ',' { '.' } else { c })
}

/// Writes every ',' of an amount as '.', so that a European decimal comma
/// reads as a decimal point.
pub fn decimal_comma_to_point(s: &str) -> (res: String)
    ensures
        res@ == comma_as_point(s@),
{
    let n = s.unicode_len();
    let mut res = String::from_str("");
    proof {
        reveal_strlit("");
        reveal_strlit(".");
    }
    let mut i: usize = 0;
    while i < n
        invariant
            n == s@.len(),
            i <= n,
            res@ == comma_as_point(s@.subrange(0, i as int)),
        decreases n - i,
    {
        let c = s.get_char(i);
        proof {
            reveal_strlit(".");
            assert(s@.subrange(i as int, i + 1) =~= seq![c]);
        }
        if c == ',' {
            res.append(".");
        } else {
            res.append(s.substring_char(i, i + 1));
        }
        assert(s@.subrange(0, i + 1) =~= s@.subrange(0, i as int).push(c));
        assert(comma_as_point(s@.subrange(0, i + 1)) =~= comma_as_point(s@.subrange(0, i as int)).push(
            if c == ',' { '.' } else { c },
        ));
        i = i + 1;
    }
    assert(s@.subrange(0, n as int) == s@);
    res
}

/// Law: after writing commas as points the text has the same length and no
/// comma left, and every other character is unchanged.
pub proof fn lemma_comma_as_point(s: Seq<char>)
    ensures
        comma_as_point(s).len() == s.len(),
        forall|i: int| 0 <= i < s.len() ==> #[trigger] comma_as_point(s)[i] != ',',
        forall|i: int| 0 <= i < s.len() && s[i] != ',' ==> #[trigger] comma_as_point(s)[i] == s[i],
{
}

/// Whether `i` is the position of the first '.' of `s`.
pub open spec fn is_first_point(s: Seq<char>, i: int) -> bool {
    &&& 0 <= i < s.len()
    &&& s[i] == '.'
    &&& forall|j: int| 0 <= j < i ==> s[j] != '.'
}

/// An amount text cut after the second character that follows its first
/// decimal point; unchanged when it has no point or fewer than three
/// characters from the point on.
pub open spec fn two_decimal_text(s: Seq<char>) -> Seq<char> {
    if exists|i: int| is_first_point(s, i) && i + 2 < s.len() {
        let i = choose|i: int| is_first_point(s, i);
        s.subrange(0, i + 3)
    } else {
        s
    }
}

/// Law: the cut text is a prefix of the amount text, and cutting it again
/// leaves it unchanged.
pub proof fn lemma_two_decimal_text(s: Seq<char>)
    ensures
        two_decimal_text(s).is_prefix_of(s),
        two_decimal_text(two_decimal_text(s)) == two_decimal_text(s),
{
    if exists|i: int| is_first_point(s, i) && i + 2 < s.len() {
        let i = choose|i: int| is_first_point(s, i) && i + 2 < s.len();
        let k = choose|k: int| is_first_point(s, k);
        assert(k == i) by {
            if k < i {
                assert(s[k] != '.');
            }
            if i < k {
                assert(s[i] != '.');
            }
        }
        let t = s.subrange(0, i + 3);
        assert(is_first_point(t, i));
        let m = choose|m: int| is_first_point(t, m);
        assert(m == i) by {
            if m < i {
                assert(t[m] != '.');
            }
            if i < m {
                assert(t[i] != '.');
            }
        }
        assert(t.subrange(0, i + 3) =~= t);
    }
}

/// Law: an amount text is cut right after the second character that follows
/// its first '.', whatever comes before the point; a text without a point, or
/// with fewer than two characters after its first point, is left whole.
pub proof fn lemma_two_decimal_text_cut(s: Seq<char>)
    ensures
        forall|i: int|
            0 <= i && i + 2 < s.len() && s[i] == '.' && (forall|j: int| 0 <= j < i ==> s[j] != '.')
                ==> #[trigger] two_decimal_text(s).len() == i + 3 && two_decimal_text(s)
                =~= s.subrange(0, i + 3),
        forall|i: int|
            0 <= i < s.len() && s[i] == '.' && i + 2 >= s.len() && (forall|j: int|
                0 <= j < i ==> s[j] != '.') ==> #[trigger] s[i] == '.' && two_decimal_text(s) == s,
        (forall|j: int| 0 <= j < s.len() ==> s[j] != '.') ==> two_decimal_text(s) == s,
{
    assert forall|i: int|
        0 <= i && i + 2 < s.len() && s[i] == '.' && (forall|j: int| 0 <= j < i ==> s[j] != '.')
            implies #[trigger] two_decimal_text(s).len() == i + 3 && two_decimal_text(s)
            =~= s.subrange(0, i + 3) by {
        assert(is_first_point(s, i));
        let k = choose|k: int| is_first_point(s, k);
        assert(k == i) by {
            if k < i {
                assert(s[k] != '.');
            }
            if i < k {
                assert(s[i] != '.');
            }
        }
    }
    assert forall|i: int|
        0 <= i < s.len() && s[i] == '.' && i + 2 >= s.len() && (forall|j: int| 0 <= j < i ==> s[j] != '.')
            implies #[trigger] s[i] == '.' && two_decimal_text(s) == s by {
        if exists|k: int| is_first_point(s, k) && k + 2 < s.len() {
            let k = choose|k: int| is_first_point(s, k) && k + 2 < s.len();
            if k < i {
                assert(s[k] != '.');
            }
            if i < k {
                assert(s[i] != '.');
            }
        }
    }
}

/// Cuts an amount text two characters after its first decimal point.
pub fn cut_to_two_decimals(s: &str) -> (res: String)
    ensures
        res@ == two_decimal_text(s@),
{
    let n = s.unicode_len();
    let mut i: usize = 0;
    while i < n
        invariant
            n == s@.len(),
            i <= n,
            forall|j: int| 0 <= j < i ==> s@[j] != '.',
        ensures
            i <= n,
            forall|j: int| 0 <= j < i ==> s@[j] != '.',
            i < n ==> s@[i as int] == '.',
        decreases n - i,
    {
        if s.get_char(i) == '.' {
            break;
        }
        i = i + 1;
    }
    if i < n && n - i > 2 {
        proof {
            assert(is_first_point(s@, i as int));
            let k = choose|k: int| is_first_point(s@, k);
            assert(k == i);
        }
        String::from_str(s.substring_char(0, i + 3))
    } else {
        proof {
            if exists|k: int| is_first_point(s@, k) && k + 2 < s@.len() {
                let k = choose|k: int| is_first_point(s@, k) && k + 2 < s@.len();
                assert(k == i);
            }
        }
        String::from_str(s)
    }
}

/// The decimal digit character of `d`.
pub open spec fn digit_char(d: nat) -> char {
    if d == 0 {
        '0'
    } else if d == 1 {
        '1'
    } else if d == 2 {
        '2'
    } else if d == 3 {
        '3'
    } else if d == 4 {
        '4'
    } else if d == 5 {
        '5'
    } else if d == 6 {
        '6'
    } else if d == 7 {
        '7'
    } else if d == 8 {
        '8'
    } else {
        '9'
    }
}

/// The decimal notation of `n`, without leading zeros.
pub open spec fn decimal(n: nat) -> Seq<char>
    decreases n,
{
    if n < 10 {
        seq![digit_char(n)]
    } else {
        decimal(n / 10).push(digit_char(n % 10))
    }
}

/// `k` zero characters.
pub open spec fn zeros(k: int) -> Seq<char> {
    Seq::new(if k < 0 { 0 } else { k as nat }, |i: int| '0')
}

/// The decimal notation of `n`, with zeros in front up to `width` characters.
pub open spec fn zero_padded(n: nat, width: nat) -> Seq<char> {
    zeros(width - decimal(n).len()) + decimal(n)
}

/// The one-character text of a decimal digit.
fn digit_text(d: u32) -> (res: &'static str)
    requires
        d < 10,
    ensures
        res@ == seq![digit_char(d as nat)],
{
    proof {
        reveal_strlit("0");
        reveal_strlit("1");
        reveal_strlit("2");
        reveal_strlit("3");
        reveal_strlit("4");
        reveal_strlit("5");
        reveal_strlit("6");
        reveal_strlit("7");
        reveal_strlit("8");
        reveal_strlit("9");
    }
    if d == 0 {
        "0"
    } else if d == 1 {
        "1"
    } else if d == 2 {
        "2"
    } else if d == 3 {
        "3"
    } else if d == 4 {
        "4"
    } else if d == 5 {
        "5"
    } else if d == 6 {
        "6"
    } else if d == 7 {
        "7"
    } else if d == 8 {
        "8"
    } else {
        "9"
    }
}

/// The decimal notation of a number.
pub fn decimal_text(n: u32) -> (res: String)
    ensures
        res@ == decimal(n as nat),
    decreases n,
{
    if n < 10 {
        String::from_str(digit_text(n))
    } else {
        let mut res = decimal_text(n / 10);
        res.append(digit_text(n % 10));
        res
    }
}

/// The decimal notation of a number, zero-padded to `width` characters.
pub fn zero_padded_text(n: u32, width: usize) -> (res: String)
    ensures
        res@ == zero_padded(n as nat, width as nat),
{
    let digits = decimal_text(n);
    let len = digits.as_str().unicode_len();
    let mut res = String::from_str("");
    proof {
        reveal_strlit("");
        reveal_strlit("0");
    }
    let mut k: usize = 0;
    while len < width && k < width - len
        invariant
            len == decimal(n as nat).len(),
            res@ == zeros(k as int),
            len < width ==> k <= width - len,
            len >= width ==> k == 0,
        decreases width - k,
    {
        proof {
            reveal_strlit("0");
        }
        res.append("0");
        assert(res@ =~= zeros(k + 1));
        k = k + 1;
    }
    assert(res@ =~= zeros(width - decimal(n as nat).len()));
    res.append(digits.as_str());
    res
}

} // verus!
