use vstd::prelude::*;
use vstd::string::StringExecFns;

verus! {

/// The characters of `s`.
pub fn chars_of(s: &str) -> (r: Vec<char>)
    ensures
        r@ == s@,
{
    let mut r: Vec<char> = Vec::new();
    for c in it: s.chars()
        invariant
            r@ == it.seq().take(it.index() as int),
    {
        r.push(c);
    }
    r
}

/// The characters with the Unicode White_Space property, which
/// `char::is_whitespace` and `str::trim` go by.
pub open spec fn is_white(c: char) -> bool {
    let u = c as u32;
    ||| 0x09 <= u <= 0x0d
    ||| u == 0x20
    ||| u == 0x85
    ||| u == 0xa0
    ||| u == 0x1680
    ||| 0x2000 <= u <= 0x200a
    ||| u == 0x2028
    ||| u == 0x2029
    ||| u == 0x202f
    ||| u == 0x205f
    ||| u == 0x3000
}

/// Whether `c` is white space.
pub fn is_whitespace(c: char) -> (r: bool)
    ensures
        r == is_white(c),
{
    let u = c as u32;
    (0x09 <= u && u <= 0x0d) || u == 0x20 || u == 0x85 || u == 0xa0 || u == 0x1680 || (0x2000
        <= u && u <= 0x200a) || u == 0x2028 || u == 0x2029 || u == 0x202f || u == 0x205f || u
        == 0x3000
}

/// Whether `s` holds nothing but white space.
pub fn is_blank(s: &str) -> (r: bool)
    ensures
        r == forall|i: int| 0 <= i < s@.len() ==> is_white(#[trigger] s@[i]),
{
    let cs = chars_of(s);
    let mut i: usize = 0;
    while i < cs.len()
        invariant
            cs@ == s@,
            i <= cs@.len(),
            forall|j: int| 0 <= j < i ==> is_white(#[trigger] s@[j]),
        decreases cs@.len() - i,
    {
        if !is_whitespace(cs[i]) {
            return false;
        }
        i = i + 1;
    }
    true
}

/// `a` followed by `b`.
pub fn concat(a: &str, b: &str) -> (r: String)
    ensures
        r@ == a@ + b@,
{
    let mut r = String::from_str(a);
    r.append(b);
    r
}

/// An ASCII decimal digit.
pub open spec fn is_digit(c: char) -> bool {
    '0' <= c <= '9'
}

/// Holds of white space.
pub open spec fn white() -> spec_fn(char) -> bool {
    |c: char| is_white(c)
}

/// Holds of everything but ASCII digits.
pub open spec fn non_digit() -> spec_fn(char) -> bool {
    |c: char| !is_digit(c)
}

/// `s` without its leading characters that satisfy `p`.
pub open spec fn drop_front_while(s: Seq<char>, p: spec_fn(char) -> bool) -> Seq<char>
    decreases s.len(),
{
    if s.len() > 0 && p(s[0]) {
        drop_front_while(s.drop_first(), p)
    } else {
        s
    }
}

/// `s` without its trailing characters that satisfy `p`.
pub open spec fn drop_back_while(s: Seq<char>, p: spec_fn(char) -> bool) -> Seq<char>
    decreases s.len(),
{
    if s.len() > 0 && p(s.last()) {
        drop_back_while(s.drop_last(), p)
    } else {
        s
    }
}

/// `s` without leading and trailing white space, as `str::trim` gives it.
pub open spec fn trimmed(s: Seq<char>) -> Seq<char> {
    drop_back_while(drop_front_while(s, white()), white())
}

/// The positions `lo..hi` of `s` with the leading and trailing characters
/// that satisfy `p` cut off.
fn cut_while(s: &Vec<char>, p_white: bool) -> (r: (usize, usize))
    ensures
        ({
            let p = if p_white {
                white()
            } else {
                non_digit()
            };
            &&& r.0 <= r.1 <= s@.len()
            &&& s@.subrange(r.0 as int, r.1 as int) == drop_back_while(drop_front_while(s@, p), p)
        }),
{
    let ghost p = if p_white {
        white()
    } else {
        non_digit()
    };
    let n = s.len();
    let mut a: usize = 0;
    assert(s@.subrange(0, n as int) =~= s@);
    while a < n && cuts(s[a], p_white)
        invariant
            a <= n == s@.len(),
            p == (if p_white {
                white()
            } else {
                non_digit()
            }),
            drop_front_while(s@, p) == drop_front_while(s@.subrange(a as int, n as int), p),
        decreases n - a,
    {
        let ghost t = s@.subrange(a as int, n as int);
        assert(t.drop_first() =~= s@.subrange(a + 1, n as int));
        a = a + 1;
    }
    let ghost front = s@.subrange(a as int, n as int);
    assert(drop_front_while(front, p) == front);
    let mut b: usize = n;
    while b > a && cuts(s[b - 1], p_white)
        invariant
            a <= b <= n == s@.len(),
            p == (if p_white {
                white()
            } else {
                non_digit()
            }),
            front == s@.subrange(a as int, n as int),
            drop_back_while(front, p) == drop_back_while(s@.subrange(a as int, b as int), p),
        decreases b - a,
    {
        let ghost t = s@.subrange(a as int, b as int);
        assert(t.drop_last() =~= s@.subrange(a as int, b - 1));
        b = b - 1;
    }
    (a, b)
}

fn cuts(c: char, p_white: bool) -> (r: bool)
    ensures
        r == (if p_white {
            white()
        } else {
            non_digit()
        })(c),
{
    if p_white {
        is_whitespace(c)
    } else {
        !is_ascii_digit(c)
    }
}

/// Whether `c` is an ASCII digit.
pub fn is_ascii_digit(c: char) -> (r: bool)
    ensures
        r == is_digit(c),
{
    '0' <= c && c <= '9'
}

/// `s` without leading and trailing white space.
pub fn trim(s: &str) -> (r: &str)
    ensures
        r@ == trimmed(s@),
{
    let cs = chars_of(s);
    let (a, b) = cut_while(&cs, true);
    s.substring_char(a, b)
}

/// The number that a string of digits spells.
pub open spec fn digits_value(s: Seq<char>) -> int
    decreases s.len(),
{
    if s.len() == 0 {
        0
    } else {
        10 * digits_value(s.drop_last()) + (s.last() as int - '0' as int)
    }
}

/// What `str::parse::<u64>` gives for a string that is empty or starts
/// with a digit: the number, when the string is all digits and the number
/// fits.
pub open spec fn parse_digits(s: Seq<char>) -> Option<u64> {
    if s.len() > 0 && (forall|i: int| 0 <= i < s.len() ==> is_digit(#[trigger] s[i]))
        && digits_value(s) <= u64::MAX {
        Some(digits_value(s) as u64)
    } else {
        None
    }
}

/// The number a word carries once its non-digit ends are cut off.
pub open spec fn word_value(w: Seq<char>) -> Option<u64> {
    parse_digits(drop_back_while(drop_front_while(w, non_digit()), non_digit()))
}

proof fn lemma_digits_value_grows(s: Seq<char>, j: int)
    requires
        0 <= j <= s.len(),
        forall|i: int| 0 <= i < s.len() ==> is_digit(#[trigger] s[i]),
    ensures
        0 <= digits_value(s.take(j)) <= digits_value(s),
    decreases s.len(),
{
    if s.len() > 0 {
        assert(forall|i: int| 0 <= i < s.drop_last().len() ==> is_digit(#[trigger] s.drop_last()[i]) ) by {
            assert forall|i: int| 0 <= i < s.drop_last().len() implies is_digit(#[trigger] s.drop_last()[i]) by {
                assert(s.drop_last()[i] == s[i]);
            }
        }
        assert(is_digit(s[s.len() - 1]));
        if j == s.len() {
            assert(s.take(j) =~= s);
            lemma_digits_value_grows(s.drop_last(), 0);
        } else {
            assert(s.take(j) =~= s.drop_last().take(j));
            lemma_digits_value_grows(s.drop_last(), j);
        }
    } else {
        assert(s.take(j) =~= s);
    }
}

/// The number that `w` carries, if any.
pub fn word_number(w: &Vec<char>) -> (r: Option<u64>)
    ensures
        r == word_value(w@),
{
    let (a, b) = cut_while(w, false);
    let ghost core = w@.subrange(a as int, b as int);
    assert(word_value(w@) == parse_digits(core));
    if a == b {
        return None;
    }
    let mut v: u64 = 0;
    let mut k: usize = a;
    while k < b
        invariant
            a <= k <= b <= w@.len(),
            core == w@.subrange(a as int, b as int),
            word_value(w@) == parse_digits(core),
            forall|i: int| a <= i < k ==> is_digit(#[trigger] w@[i]),
            v == digits_value(w@.subrange(a as int, k as int)),
        decreases b - k,
    {
        let ghost pre = w@.subrange(a as int, k as int);
        let ghost next = w@.subrange(a as int, k + 1);
        assert(next.drop_last() =~= pre);
        assert(core.take(k + 1 - a) =~= next);
        if !is_ascii_digit(w[k]) {
            assert(!is_digit(core[k - a]));
            return None;
        }
        let d = ((w[k] as u32) - ('0' as u32)) as u64;
        assert(digits_value(next) == 10 * v + d);
        assert(core.take(k + 1 - a) == next);
        match v.checked_mul(10) {
            Some(m) => match m.checked_add(d) {
                Some(n) => {
                    v = n;
                },
                None => {
                    proof {
                        if forall|i: int| 0 <= i < core.len() ==> is_digit(#[trigger] core[i]) {
                            lemma_digits_value_grows(core, k + 1 - a);
                        }
                    }
                    return None;
                },
            },
            None => {
                proof {
                    if forall|i: int| 0 <= i < core.len() ==> is_digit(#[trigger] core[i]) {
                        lemma_digits_value_grows(core, k + 1 - a);
                    }
                }
                return None;
            },
        }
        k = k + 1;
    }
    assert(forall|i: int| 0 <= i < core.len() ==> is_digit(#[trigger] core[i])) by {
        assert forall|i: int| 0 <= i < core.len() implies is_digit(#[trigger] core[i]) by {
            assert(core[i] == w@[a + i]);
        }
    }
    Some(v)
}

/// The lines of `s`, split at each newline.
pub open spec fn lines(s: Seq<char>) -> Seq<Seq<char>>
    decreases s.len(),
{
    if s.len() == 0 {
        seq![seq![]]
    } else {
        let l = lines(s.drop_last());
        if s.last() == '\n' {
            l.push(seq![])
        } else {
            l.update(l.len() - 1, l.last().push(s.last()))
        }
    }
}

/// The maximal runs of characters other than white space in `s`.
pub open spec fn words(s: Seq<char>) -> Seq<Seq<char>>
    decreases s.len(),
{
    if s.len() == 0 {
        seq![]
    } else {
        let w = words(s.drop_last());
        let c = s.last();
        if is_white(c) {
            w
        } else if s.len() >= 2 && !is_white(s[s.len() - 2]) {
            w.update(w.len() - 1, w.last().push(c))
        } else {
            w.push(seq![c])
        }
    }
}

/// The texts of a list of character vectors.
pub open spec fn views(v: Seq<Vec<char>>) -> Seq<Seq<char>> {
    v.map_values(|x: Vec<char>| x@)
}

proof fn lemma_views_push(v: Seq<Vec<char>>, x: Vec<char>)
    ensures
        views(v.push(x)) == views(v).push(x@),
{
    assert(views(v.push(x)) =~= views(v).push(x@));
}

/// The lines of `s`.
pub fn split_lines(s: &Vec<char>) -> (r: Vec<Vec<char>>)
    ensures
        views(r@) == lines(s@),
{
    let mut done: Vec<Vec<char>> = Vec::new();
    let mut cur: Vec<char> = Vec::new();
    let mut i: usize = 0;
    assert(s@.take(0) =~= Seq::<char>::empty());
    assert(views(done@).push(cur@) =~= seq![Seq::<char>::empty()]);
    while i < s.len()
        invariant
            i <= s@.len(),
            views(done@).push(cur@) == lines(s@.take(i as int)),
        decreases s@.len() - i,
    {
        let ghost pre = s@.take(i as int);
        let ghost next = s@.take(i + 1);
        assert(next.drop_last() =~= pre);
        let c = s[i];
        if c == '\n' {
            proof {
                lemma_views_push(done@, cur);
            }
            done.push(cur);
            cur = Vec::new();
            assert(views(done@).push(cur@) =~= lines(next));
        } else {
            let ghost before = cur@;
            cur.push(c);
            assert(views(done@).push(cur@) =~= views(done@).push(before).update(
                views(done@).len() as int,
                before.push(c),
            ));
        }
        i = i + 1;
    }
    assert(s@.take(s@.len() as int) =~= s@);
    proof {
        lemma_views_push(done@, cur);
    }
    done.push(cur);
    done
}

/// The words of `s`.
pub fn split_words(s: &Vec<char>) -> (r: Vec<Vec<char>>)
    ensures
        views(r@) == words(s@),
{
    let mut done: Vec<Vec<char>> = Vec::new();
    let mut cur: Vec<char> = Vec::new();
    let mut in_word = false;
    let mut i: usize = 0;
    assert(s@.take(0) =~= Seq::<char>::empty());
    assert(views(done@) =~= Seq::<Seq<char>>::empty());
    while i < s.len()
        invariant
            i <= s@.len(),
            in_word == (i > 0 && !is_white(s@[i - 1])),
            (if in_word {
                views(done@).push(cur@)
            } else {
                views(done@)
            }) == words(s@.take(i as int)),
        decreases s@.len() - i,
    {
        let ghost pre = s@.take(i as int);
        let ghost next = s@.take(i + 1);
        assert(next.drop_last() =~= pre);
        assert(next.last() == s@[i as int]);
        assert(i > 0 ==> next[i - 1] == s@[i - 1]);
        let c = s[i];
        if is_whitespace(c) {
            if in_word {
                proof {
                    lemma_views_push(done@, cur);
                }
                done.push(cur);
                cur = Vec::new();
            }
            in_word = false;
        } else if in_word {
            let ghost before = cur@;
            cur.push(c);
            assert(views(done@).push(cur@) =~= views(done@).push(before).update(
                views(done@).len() as int,
                before.push(c),
            ));
        } else {
            cur = Vec::new();
            cur.push(c);
            assert(cur@ =~= seq![c]);
            in_word = true;
        }
        i = i + 1;
    }
    assert(s@.take(s@.len() as int) =~= s@);
    if in_word {
        proof {
            lemma_views_push(done@, cur);
        }
        done.push(cur);
    }
    done
}

/// "fee" in any mix of cases starts at position `k` of `line`.
pub open spec fn fee_at(line: Seq<char>, k: int) -> bool {
    &&& 0 <= k && k + 2 < line.len()
    &&& (line[k] == 'f' || line[k] == 'F')
    &&& (line[k + 1] == 'e' || line[k + 1] == 'E')
    &&& (line[k + 2] == 'e' || line[k + 2] == 'E')
}

/// The line mentions "fee" in any mix of cases. These are the lines in which
/// `to_lowercase` followed by a search for "fee" succeeds: no other
/// character lowercases to an ASCII `f` or `e`.
pub open spec fn mentions_fee(line: Seq<char>) -> bool {
    exists|k: int| #[trigger] fee_at(line, k)
}

/// Whether `line` mentions "fee".
pub fn line_mentions_fee(line: &Vec<char>) -> (r: bool)
    ensures
        r == mentions_fee(line@),
{
    let n = line.len();
    let mut k: usize = 0;
    while k < n && n - k > 2
        invariant
            k <= n,
            n == line@.len(),
            forall|j: int| 0 <= j < k ==> !#[trigger] fee_at(line@, j),
        decreases n - k,
    {
        let c0 = line[k];
        let c1 = line[k + 1];
        let c2 = line[k + 2];
        if (c0 == 'f' || c0 == 'F') && (c1 == 'e' || c1 == 'E') && (c2 == 'e' || c2 == 'E') {
            assert(fee_at(line@, k as int));
            return true;
        }
        k = k + 1;
    }
    assert forall|j: int| !#[trigger] fee_at(line@, j) by {
        if 0 <= j && j + 2 < n {
            assert(j < k);
        }
    }
    false
}

/// The first `Some` among `f` applied to each element of `s`, in order.
pub open spec fn first_some<T>(s: Seq<T>, f: spec_fn(T) -> Option<u64>) -> Option<u64>
    decreases s.len(),
{
    if s.len() == 0 {
        None
    } else {
        match first_some(s.drop_last(), f) {
            Some(v) => Some(v),
            None => f(s.last()),
        }
    }
}

proof fn lemma_first_some_stable<T>(s: Seq<T>, f: spec_fn(T) -> Option<u64>, i: int)
    requires
        0 <= i <= s.len(),
        first_some(s.take(i), f) is Some,
    ensures
        first_some(s, f) == first_some(s.take(i), f),
    decreases s.len() - i,
{
    if i < s.len() {
        assert(s.take(i + 1).drop_last() =~= s.take(i));
        lemma_first_some_stable(s, f, i + 1);
    } else {
        assert(s.take(i) =~= s);
    }
}

/// The number carried by each word.
pub open spec fn word_values() -> spec_fn(Seq<char>) -> Option<u64> {
    |w: Seq<char>| word_value(w)
}

/// The fee a line reports: the first number in it, if it mentions "fee".
pub open spec fn line_fee(line: Seq<char>) -> Option<u64> {
    if mentions_fee(line) {
        first_some(words(line), word_values())
    } else {
        None
    }
}

/// The fee each line reports.
pub open spec fn line_fees() -> spec_fn(Seq<char>) -> Option<u64> {
    |l: Seq<char>| line_fee(l)
}

/// The fee reported by the first line that mentions "fee" and carries a
/// number.
pub open spec fn fee_in_text(s: Seq<char>) -> Option<u64> {
    first_some(lines(s), line_fees())
}

/// The fee that `line` reports, if any.
pub fn fee_of_line(line: &Vec<char>) -> (r: Option<u64>)
    ensures
        r == line_fee(line@),
{
    if !line_mentions_fee(line) {
        return None;
    }
    let ws = split_words(line);
    let ghost wv = views(ws@);
    let mut i: usize = 0;
    while i < ws.len()
        invariant
            i <= ws@.len(),
            wv == views(ws@),
            wv == words(line@),
            mentions_fee(line@),
            first_some(wv.take(i as int), word_values()) is None,
        decreases ws@.len() - i,
    {
        assert(wv.take(i + 1).drop_last() =~= wv.take(i as int));
        assert(wv[i as int] == ws@[i as int]@);
        if let Some(v) = word_number(&ws[i]) {
            proof {
                lemma_first_some_stable(wv, word_values(), i + 1);
            }
            return Some(v);
        }
        i = i + 1;
    }
    assert(wv.take(ws@.len() as int) =~= wv);
    None
}

/// The fee that `text` reports in its lines, if any.
pub fn fee_in_lines(text: &str) -> (r: Option<u64>)
    ensures
        r == fee_in_text(text@),
{
    let cs = chars_of(text);
    let ls = split_lines(&cs);
    let ghost lv = views(ls@);
    let mut i: usize = 0;
    while i < ls.len()
        invariant
            i <= ls@.len(),
            lv == views(ls@),
            lv == lines(text@),
            first_some(lv.take(i as int), line_fees()) is None,
        decreases ls@.len() - i,
    {
        assert(lv.take(i + 1).drop_last() =~= lv.take(i as int));
        assert(lv[i as int] == ls@[i as int]@);
        if let Some(v) = fee_of_line(&ls[i]) {
            proof {
                lemma_first_some_stable(lv, line_fees(), i + 1);
            }
            return Some(v);
        }
        i = i + 1;
    }
    assert(lv.take(ls@.len() as int) =~= lv);
    None
}

} // verus!
