//! Character classes, trimming and line handling for the text an ELM327
//! adapter sends back, and the cleaning of a raw reply into its lines.
use vstd::prelude::*;

verus! {

/// Unicode `White_Space`, the class that `char::is_whitespace` and
/// `str::trim` use.
pub open spec fn is_space(c: char) -> bool {
    ||| c == '\t'
    ||| c == '\n'
    ||| c == '\u{0B}'
    ||| c == '\u{0C}'
    ||| c == '\r'
    ||| c == ' '
    ||| c == '\u{85}'
    ||| c == '\u{A0}'
    ||| c == '\u{1680}'
    ||| ('\u{2000}' <= c && c <= '\u{200A}')
    ||| c == '\u{2028}'
    ||| c == '\u{2029}'
    ||| c == '\u{202F}'
    ||| c == '\u{205F}'
    ||| c == '\u{3000}'
}

/// Executable test for [`is_space`].
pub fn char_is_space(c: char) -> (r: bool)
    ensures
        r == is_space(c),
{
    c == '\t' || c == '\n' || c == '\u{0B}' || c == '\u{0C}' || c == '\r' || c == ' ' || c
        == '\u{85}' || c == '\u{A0}' || c == '\u{1680}' || ('\u{2000}' <= c && c <= '\u{200A}')
        || c == '\u{2028}' || c == '\u{2029}' || c == '\u{202F}' || c == '\u{205F}' || c
        == '\u{3000}'
}

/// `s` with its leading white space removed.
pub open spec fn trim_start(s: Seq<char>) -> Seq<char>
    decreases s.len(),
{
    if s.len() > 0 && is_space(s[0]) {
        trim_start(s.drop_first())
    } else {
        s
    }
}

/// `s` with its trailing white space removed.
pub open spec fn trim_end(s: Seq<char>) -> Seq<char>
    decreases s.len(),
{
    if s.len() > 0 && is_space(s.last()) {
        trim_end(s.drop_last())
    } else {
        s
    }
}

/// `s` with white space removed at both ends, as `str::trim` does.
pub open spec fn trim(s: Seq<char>) -> Seq<char> {
    trim_end(trim_start(s))
}

/// The pieces of `s` between line feeds, empty pieces included: a text with
/// `k` line feeds has `k + 1` pieces.
pub open spec fn split_lines(s: Seq<char>) -> Seq<Seq<char>>
    decreases s.len(),
{
    if s.len() == 0 {
        seq![Seq::<char>::empty()]
    } else {
        let p = split_lines(s.drop_last());
        if s.last() == '\n' {
            p.push(Seq::<char>::empty())
        } else {
            p.update(p.len() - 1, p.last().push(s.last()))
        }
    }
}

/// The lines of `ls` joined with a line feed between each two.
pub open spec fn join_lines(ls: Seq<Seq<char>>) -> Seq<char>
    decreases ls.len(),
{
    if ls.len() == 0 {
        Seq::<char>::empty()
    } else if ls.len() == 1 {
        ls[0]
    } else {
        join_lines(ls.drop_last()) + seq!['\n'] + ls.last()
    }
}

/// ASCII letters folded to one case; every other character unchanged.
pub open spec fn ascii_fold(c: char) -> u32 {
    if 'a' <= c && c <= 'z' {
        (c as u32 - 32) as u32
    } else {
        c as u32
    }
}

/// The two texts are equal up to the case of ASCII letters, as
/// `str::eq_ignore_ascii_case` decides.
pub open spec fn eq_ignore_ascii_case(a: Seq<char>, b: Seq<char>) -> bool {
    &&& a.len() == b.len()
    &&& forall|i: int| 0 <= i < a.len() ==> #[trigger] ascii_fold(a[i]) == ascii_fold(b[i])
}

/// The progress line an ELM327 prints while it looks for a protocol.
pub open spec fn searching_word() -> Seq<char> {
    seq!['S', 'E', 'A', 'R', 'C', 'H', 'I', 'N', 'G', '.', '.', '.']
}

/// The line an ELM327 prints when a request was interrupted.
pub open spec fn stopped_word() -> Seq<char> {
    seq!['S', 'T', 'O', 'P', 'P', 'E', 'D']
}

/// A trimmed line that carries no reply data.
pub open spec fn is_noise_line(l: Seq<char>) -> bool {
    ||| l.len() == 0
    ||| eq_ignore_ascii_case(l, searching_word())
    ||| eq_ignore_ascii_case(l, stopped_word())
}

/// The trimmed pieces of `ls` that carry data, in order.
pub open spec fn kept_lines(ls: Seq<Seq<char>>) -> Seq<Seq<char>>
    decreases ls.len(),
{
    if ls.len() == 0 {
        Seq::<Seq<char>>::empty()
    } else {
        let k = kept_lines(ls.drop_last());
        let t = trim(ls.last());
        if is_noise_line(t) {
            k
        } else {
            k.push(t)
        }
    }
}

/// The raw reply with every prompt character `>` removed and every carriage
/// return turned into a line feed.
pub open spec fn unify_line_ends(s: Seq<char>) -> Seq<char>
    decreases s.len(),
{
    if s.len() == 0 {
        Seq::<char>::empty()
    } else {
        let r = unify_line_ends(s.drop_last());
        let c = s.last();
        if c == '>' {
            r
        } else if c == '\r' {
            r.push('\n')
        } else {
            r.push(c)
        }
    }
}

/// The cleaned reply: its lines, trimmed, without empty lines and without
/// `SEARCHING...` or `STOPPED` lines (in any case), joined by line feeds.
pub open spec fn cleaned_reply(s: Seq<char>) -> Seq<char> {
    join_lines(kept_lines(split_lines(unify_line_ends(s))))
}

/// Appends one character to a `String` (`String::push`).
#[verifier::external_body]
pub(crate) fn push_char(s: &mut String, c: char)
    ensures
        final(s)@ == old(s)@.push(c),
{
    s.push(c)
}

proof fn lemma_trim_start_at(s: Seq<char>, a: int)
    requires
        0 <= a <= s.len(),
        forall|i: int| 0 <= i < a ==> is_space(#[trigger] s[i]),
        a == s.len() || !is_space(s[a]),
    ensures
        trim_start(s) == s.subrange(a, s.len() as int),
    decreases a,
{
    if a == 0 {
        assert(s.subrange(0, s.len() as int) =~= s);
    } else {
        let t = s.drop_first();
        assert forall|i: int| 0 <= i < a - 1 implies is_space(#[trigger] t[i]) by {
            assert(t[i] == s[i + 1]);
        }
        if a - 1 < t.len() {
            assert(t[a - 1] == s[a]);
        }
        lemma_trim_start_at(t, a - 1);
        assert(t.subrange(a - 1, t.len() as int) =~= s.subrange(a, s.len() as int));
    }
}

proof fn lemma_trim_end_at(s: Seq<char>, b: int)
    requires
        0 <= b <= s.len(),
        forall|i: int| b <= i < s.len() ==> is_space(#[trigger] s[i]),
        b == 0 || !is_space(s[b - 1]),
    ensures
        trim_end(s) == s.subrange(0, b),
    decreases s.len() - b,
{
    if b == s.len() {
        assert(s.subrange(0, b) =~= s);
    } else {
        let t = s.drop_last();
        assert forall|i: int| b <= i < t.len() implies is_space(#[trigger] t[i]) by {
            assert(t[i] == s[i]);
        }
        if b > 0 {
            assert(t[b - 1] == s[b - 1]);
        }
        lemma_trim_end_at(t, b);
        assert(t.subrange(0, b) =~= s.subrange(0, b));
    }
}

/// The bounds `(a, b)` such that `v[a..b]` is `v` trimmed.
pub fn trim_bounds(v: &Vec<char>) -> (r: (usize, usize))
    ensures
        r.0 <= r.1 <= v.len(),
        v@.subrange(r.0 as int, r.1 as int) == trim(v@),
{
    let n: usize = v.len();
    let mut a: usize = 0;
    while a < n && char_is_space(v[a])
        invariant
            a <= n == v.len(),
            forall|i: int| 0 <= i < a ==> is_space(#[trigger] v@[i]),
        decreases n - a,
    {
        a = a + 1;
    }
    proof {
        lemma_trim_start_at(v@, a as int);
    }
    let mut b: usize = n;
    while b > a && char_is_space(v[b - 1])
        invariant
            a <= b <= n == v.len(),
            forall|i: int| b <= i < n ==> is_space(#[trigger] v@[i]),
        decreases b - a,
    {
        b = b - 1;
    }
    proof {
        let t = v@.subrange(a as int, n as int);
        assert forall|i: int| b - a <= i < t.len() implies is_space(#[trigger] t[i]) by {
            assert(t[i] == v@[i + a]);
        }
        if b > a {
            assert(t[b - a - 1] == v@[b - 1]);
        }
        lemma_trim_end_at(t, b - a);
        assert(t.subrange(0, b - a) =~= v@.subrange(a as int, b as int));
    }
    (a, b)
}

/// Appends `v[a..b]` to `out`.
pub(crate) fn push_range(out: &mut String, v: &Vec<char>, a: usize, b: usize)
    requires
        a <= b <= v.len(),
    ensures
        final(out)@ == old(out)@ + v@.subrange(a as int, b as int),
{
    let mut i: usize = a;
    while i < b
        invariant
            a <= i <= b <= v.len(),
            out@ == old(out)@ + v@.subrange(a as int, i as int),
        decreases b - i,
    {
        push_char(out, v[i]);
        proof {
            assert(v@.subrange(a as int, i + 1) =~= v@.subrange(a as int, i as int).push(v@[i as int]));
        }
        i = i + 1;
    }
}

/// Whether `l[a..b]` equals `word` up to the case of ASCII letters.
fn range_eq_ignore_ascii_case(l: &Vec<char>, a: usize, b: usize, word: &Vec<char>) -> (r: bool)
    requires
        a <= b <= l.len(),
    ensures
        r == eq_ignore_ascii_case(l@.subrange(a as int, b as int), word@),
{
    let ghost t = l@.subrange(a as int, b as int);
    if b - a != word.len() {
        return false;
    }
    let mut i: usize = 0;
    while i < word.len()
        invariant
            a <= b <= l.len(),
            b - a == word.len(),
            t == l@.subrange(a as int, b as int),
            i <= word.len(),
            forall|j: int| 0 <= j < i ==> #[trigger] ascii_fold(t[j]) == ascii_fold(word@[j]),
        decreases word.len() - i,
    {
        let x = l[a + i];
        let y = word[i];
        let fx: u32 = if 'a' <= x && x <= 'z' { (x as u32) - 32 } else { x as u32 };
        let fy: u32 = if 'a' <= y && y <= 'z' { (y as u32) - 32 } else { y as u32 };
        assert(t[i as int] == x);
        assert(fx == ascii_fold(x));
        assert(fy == ascii_fold(y));
        if fx != fy {
            assert(ascii_fold(t[i as int]) != ascii_fold(word@[i as int]));
            return false;
        }
        i = i + 1;
    }
    true
}

/// Whether the trimmed line `l[a..b]` is noise.
fn range_is_noise(l: &Vec<char>, a: usize, b: usize) -> (r: bool)
    requires
        a <= b <= l.len(),
    ensures
        r == is_noise_line(l@.subrange(a as int, b as int)),
{
    let searching = vec!['S', 'E', 'A', 'R', 'C', 'H', 'I', 'N', 'G', '.', '.', '.'];
    let stopped = vec!['S', 'T', 'O', 'P', 'P', 'E', 'D'];
    assert(searching@ =~= searching_word());
    assert(stopped@ =~= stopped_word());
    a == b || range_eq_ignore_ascii_case(l, a, b, &searching) || range_eq_ignore_ascii_case(
        l,
        a,
        b,
        &stopped,
    )
}

proof fn lemma_join_push(ls: Seq<Seq<char>>, l: Seq<char>)
    ensures
        join_lines(ls.push(l)) == if ls.len() == 0 {
            l
        } else {
            join_lines(ls) + seq!['\n'] + l
        },
{
    assert(ls.push(l).drop_last() =~= ls);
}

proof fn lemma_kept_push(ls: Seq<Seq<char>>, l: Seq<char>)
    ensures
        kept_lines(ls.push(l)) == if is_noise_line(trim(l)) {
            kept_lines(ls)
        } else {
            kept_lines(ls).push(trim(l))
        },
{
    assert(ls.push(l).drop_last() =~= ls);
}

/// Closes the line `cur`: appends it, trimmed, to `out` unless it is noise.
fn close_line(out: &mut String, any_kept: &mut bool, cur: &Vec<char>, Ghost(done): Ghost<
    Seq<Seq<char>>,
>)
    requires
        old(out)@ == join_lines(kept_lines(done)),
        *old(any_kept) == (kept_lines(done).len() > 0),
    ensures
        final(out)@ == join_lines(kept_lines(done.push(cur@))),
        *final(any_kept) == (kept_lines(done.push(cur@)).len() > 0),
{
    let (a, b) = trim_bounds(cur);
    proof {
        lemma_kept_push(done, cur@);
    }
    if !range_is_noise(cur, a, b) {
        proof {
            lemma_join_push(kept_lines(done), trim(cur@));
        }
        if *any_kept {
            push_char(out, '\n');
        }
        push_range(out, cur, a, b);
        *any_kept = true;
    }
}

pub(crate) proof fn lemma_split_step(s: Seq<char>, c: char)
    ensures
        split_lines(s.push(c)) == if c == '\n' {
            split_lines(s).push(Seq::<char>::empty())
        } else {
            let p = split_lines(s);
            p.update(p.len() - 1, p.last().push(c))
        },
{
    assert(s.push(c).drop_last() =~= s);
}

pub(crate) proof fn lemma_split_nonempty(s: Seq<char>)
    ensures
        split_lines(s).len() >= 1,
    decreases s.len(),
{
    if s.len() > 0 {
        lemma_split_nonempty(s.drop_last());
    }
}

proof fn lemma_unify_step(s: Seq<char>, i: int)
    requires
        0 <= i < s.len(),
    ensures
        unify_line_ends(s.take(i + 1)) == if s[i] == '>' {
            unify_line_ends(s.take(i))
        } else if s[i] == '\r' {
            unify_line_ends(s.take(i)).push('\n')
        } else {
            unify_line_ends(s.take(i)).push(s[i])
        },
{
    assert(s.take(i + 1).drop_last() =~= s.take(i));
}

/// Cleans a raw ELM327 reply: drops the `>` prompt, splits it into lines at
/// carriage returns and line feeds, trims each line, drops empty lines and
/// `SEARCHING...` / `STOPPED` lines (ignoring ASCII case), and joins what is
/// left with line feeds.
pub fn clean_elm_text(s: &str) -> (r: String)
    ensures
        r@ == cleaned_reply(s@),
{
    let mut out = String::new();
    let mut any_kept = false;
    let mut cur: Vec<char> = Vec::new();
    let ghost mut done: Seq<Seq<char>> = Seq::empty();
    for c in it: s.chars()
        invariant
            it.seq() == s@,
            split_lines(unify_line_ends(s@.take(it.index()))) == done.push(cur@),
            out@ == join_lines(kept_lines(done)),
            any_kept == (kept_lines(done).len() > 0),
    {
        let ghost i = it.index();
        assert(s@[i] == c);
        proof {
            lemma_unify_step(s@, i);
        }
        if c == '>' {
        } else if c == '\r' || c == '\n' {
            close_line(&mut out, &mut any_kept, &cur, Ghost(done));
            proof {
                lemma_split_step(unify_line_ends(s@.take(i)), '\n');
                done = done.push(cur@);
            }
            cur = Vec::new();
            assert(done.push(cur@) =~= split_lines(unify_line_ends(s@.take(i + 1))));
        } else {
            proof {
                lemma_split_step(unify_line_ends(s@.take(i)), c);
            }
            cur.push(c);
            assert(done.push(cur@) =~= split_lines(unify_line_ends(s@.take(i + 1))));
        }
    }
    assert(s@.take(s@.len() as int) =~= s@);
    close_line(&mut out, &mut any_kept, &cur, Ghost(done));
    out
}

/// No prompt character and no carriage return in `x`.
pub open spec fn free_of_prompt_and_cr(x: Seq<char>) -> bool {
    forall|i: int| 0 <= i < x.len() ==> #[trigger] x[i] != '>' && x[i] != '\r'
}

proof fn lemma_unify_free(s: Seq<char>)
    ensures
        free_of_prompt_and_cr(unify_line_ends(s)),
    decreases s.len(),
{
    if s.len() > 0 {
        lemma_unify_free(s.drop_last());
    }
}

proof fn lemma_split_free(s: Seq<char>)
    requires
        free_of_prompt_and_cr(s),
    ensures
        forall|k: int| 0 <= k < split_lines(s).len() ==> free_of_prompt_and_cr(
            #[trigger] split_lines(s)[k],
        ),
    decreases s.len(),
{
    if s.len() > 0 {
        let t = s.drop_last();
        assert(free_of_prompt_and_cr(t)) by {
            assert forall|i: int| 0 <= i < t.len() implies #[trigger] t[i] != '>' && t[i]
                != '\r' by {
                assert(t[i] == s[i]);
            }
        }
        lemma_split_free(t);
        lemma_split_nonempty(t);
        let p = split_lines(t);
        if s.last() != '\n' {
            assert(s[s.len() - 1] != '>' && s[s.len() - 1] != '\r');
            assert(free_of_prompt_and_cr(p.last().push(s.last())));
        }
    }
}

proof fn lemma_trim_free(x: Seq<char>)
    requires
        free_of_prompt_and_cr(x),
    ensures
        free_of_prompt_and_cr(trim_start(x)),
        free_of_prompt_and_cr(trim_end(x)),
    decreases x.len(),
{
    if x.len() > 0 {
        let a = x.drop_first();
        let b = x.drop_last();
        assert forall|i: int| 0 <= i < a.len() implies #[trigger] a[i] != '>' && a[i] != '\r' by {
            assert(a[i] == x[i + 1]);
        }
        assert forall|i: int| 0 <= i < b.len() implies #[trigger] b[i] != '>' && b[i] != '\r' by {
            assert(b[i] == x[i]);
        }
        lemma_trim_free(a);
        lemma_trim_free(b);
    }
}

proof fn lemma_kept_free(ls: Seq<Seq<char>>)
    requires
        forall|k: int| 0 <= k < ls.len() ==> free_of_prompt_and_cr(#[trigger] ls[k]),
    ensures
        forall|k: int| 0 <= k < kept_lines(ls).len() ==> free_of_prompt_and_cr(
            #[trigger] kept_lines(ls)[k],
        ),
    decreases ls.len(),
{
    if ls.len() > 0 {
        let init = ls.drop_last();
        assert forall|k: int| 0 <= k < init.len() implies free_of_prompt_and_cr(
            #[trigger] init[k],
        ) by {
            assert(init[k] == ls[k]);
        }
        lemma_kept_free(init);
        assert(free_of_prompt_and_cr(ls[ls.len() - 1]));
        lemma_trim_free(ls.last());
        lemma_trim_free(trim_start(ls.last()));
        let k0 = kept_lines(init);
        let t = trim(ls.last());
        assert forall|k: int| 0 <= k < kept_lines(ls).len() implies free_of_prompt_and_cr(
            #[trigger] kept_lines(ls)[k],
        ) by {
            if k < k0.len() {
                assert(kept_lines(ls)[k] == k0[k]);
            } else {
                assert(kept_lines(ls)[k] == t);
            }
        }
    }
}

proof fn lemma_join_free(ls: Seq<Seq<char>>)
    requires
        forall|k: int| 0 <= k < ls.len() ==> free_of_prompt_and_cr(#[trigger] ls[k]),
    ensures
        free_of_prompt_and_cr(join_lines(ls)),
    decreases ls.len(),
{
    if ls.len() > 1 {
        let init = ls.drop_last();
        assert forall|k: int| 0 <= k < init.len() implies free_of_prompt_and_cr(
            #[trigger] init[k],
        ) by {
            assert(init[k] == ls[k]);
        }
        lemma_join_free(init);
        assert(free_of_prompt_and_cr(ls[ls.len() - 1]));
        let j = join_lines(init) + seq!['\n'] + ls.last();
        assert forall|i: int| 0 <= i < j.len() implies #[trigger] j[i] != '>' && j[i] != '\r' by {
            if i < join_lines(init).len() {
            } else if i == join_lines(init).len() {
            } else {
                assert(j[i] == ls.last()[i - join_lines(init).len() - 1]);
            }
        }
    } else if ls.len() == 1 {
        assert(free_of_prompt_and_cr(ls[0]));
    }
}

/// A cleaned reply holds no prompt character and no carriage return.
pub proof fn law_cleaned_reply_has_no_prompt_or_cr(s: Seq<char>)
    ensures
        free_of_prompt_and_cr(cleaned_reply(s)),
{
    lemma_unify_free(s);
    lemma_split_free(unify_line_ends(s));
    lemma_kept_free(split_lines(unify_line_ends(s)));
    lemma_join_free(kept_lines(split_lines(unify_line_ends(s))));
}

/// Every line kept from a reply is trimmed and carries data: it is not
/// empty, not `SEARCHING...` and not `STOPPED`, in any case.
pub proof fn law_kept_lines_carry_data(ls: Seq<Seq<char>>)
    ensures
        forall|k: int|
            0 <= k < kept_lines(ls).len() ==> !is_noise_line(#[trigger] kept_lines(ls)[k]),
    decreases ls.len(),
{
    if ls.len() > 0 {
        let init = ls.drop_last();
        law_kept_lines_carry_data(init);
        let k0 = kept_lines(init);
        assert forall|k: int| 0 <= k < kept_lines(ls).len() implies !is_noise_line(
            #[trigger] kept_lines(ls)[k],
        ) by {
            if k < k0.len() {
                assert(kept_lines(ls)[k] == k0[k]);
            }
        }
    }
}

} // verus!
