//! Text commands: a message such as `!purge 10` names a command after the
//! prefix and gives it whitespace-separated arguments.
use vstd::prelude::*;
use vstd::string::*;

verus! {

/// The prefix of text commands.
pub const DEFAULT_PREFIX: &'static str = "!";

/// Whether the command name is compared with ASCII case ignored.
#[derive(Debug, Clone, Copy, PartialEq, Eq, Structural)]
pub enum Case {
    Sensitive,
    Insensitive,
}

/// Whether the command name must follow the prefix.
#[derive(Debug, Clone, Copy, PartialEq, Eq, Structural)]
pub enum Prefix {
    Yes,
    No,
}

/// A separator between words: space, tab, line feed or carriage return.
pub open spec fn is_space(c: char) -> bool {
    c == ' ' || c == '\t' || c == '\n' || c == '\r'
}

/// The length of the word at the start of `s`.
pub open spec fn word_len(s: Seq<char>) -> nat
    decreases s.len(),
{
    if s.len() == 0 || is_space(s[0]) {
        0
    } else {
        1 + word_len(s.drop_first())
    }
}

/// The words of `s`: its maximal runs of non-separators, in order.
pub open spec fn words(s: Seq<char>) -> Seq<Seq<char>>
    decreases s.len(),
{
    if s.len() == 0 {
        seq![]
    } else if is_space(s[0]) {
        words(s.drop_first())
    } else {
        let k = word_len(s);
        if 0 < k <= s.len() {
            seq![s.take(k as int)] + words(s.skip(k as int))
        } else {
            seq![]
        }
    }
}

/// `a` and `b` are the same character, ignoring ASCII case.
pub open spec fn same_ignoring_ascii_case(a: char, b: char) -> bool {
    ||| a == b
    ||| ('A' <= a <= 'Z' && a as int + 32 == b as int)
    ||| ('A' <= b <= 'Z' && b as int + 32 == a as int)
}

/// `a` and `b` are the same word, compared as `case` says.
pub open spec fn same_word(a: Seq<char>, b: Seq<char>, case: Case) -> bool {
    match case {
        Case::Sensitive => a == b,
        Case::Insensitive => a.len() == b.len() && forall|i: int|
            0 <= i < a.len() ==> same_ignoring_ascii_case(#[trigger] a[i], b[i]),
    }
}

/// The word that calls the command `name`.
pub open spec fn command_word(name: Seq<char>, prefix: Prefix) -> Seq<char> {
    match prefix {
        Prefix::Yes => seq!['!'] + name,
        Prefix::No => name,
    }
}

/// The arguments of the command `name` in `content`, where its first word
/// calls that command.
pub open spec fn command_args(content: Seq<char>, name: Seq<char>, case: Case, prefix: Prefix) -> Option<
    Seq<Seq<char>>,
> {
    let w = words(content);
    if w.len() > 0 && same_word(w[0], command_word(name, prefix), case) {
        Some(w.drop_first())
    } else {
        None
    }
}

proof fn lemma_word_len_bound(s: Seq<char>)
    ensures
        word_len(s) <= s.len(),
        forall|j: int| 0 <= j < word_len(s) ==> !is_space(#[trigger] s[j]),
        word_len(s) < s.len() ==> is_space(s[word_len(s) as int]),
    decreases s.len(),
{
    if s.len() > 0 && !is_space(s[0]) {
        lemma_word_len_bound(s.drop_first());
        assert forall|j: int| 0 <= j < word_len(s) implies !is_space(#[trigger] s[j]) by {
            if j > 0 {
                assert(s[j] == s.drop_first()[j - 1]);
            }
        }
        if word_len(s) < s.len() {
            assert(s[word_len(s) as int] == s.drop_first()[word_len(s.drop_first()) as int]);
        }
    }
}

proof fn lemma_word_len_exact(s: Seq<char>, k: int)
    requires
        0 <= k <= s.len(),
        forall|j: int| 0 <= j < k ==> !is_space(#[trigger] s[j]),
        k == s.len() || is_space(s[k]),
    ensures
        word_len(s) == k,
    decreases s.len(),
{
    if k > 0 {
        assert forall|j: int| 0 <= j < k - 1 implies !is_space(#[trigger] s.drop_first()[j]) by {
            assert(s.drop_first()[j] == s[j + 1]);
        }
        if k < s.len() {
            assert(s.drop_first()[k - 1] == s[k]);
        }
        lemma_word_len_exact(s.drop_first(), k - 1);
    }
}

/// Whether `c` is a word separator.
fn is_space_char(c: char) -> (r: bool)
    ensures
        r == is_space(c),
{
    c == ' ' || c == '\t' || c == '\n' || c == '\r'
}

/// The words of `content`, each as a `String`.
pub fn split_words(content: &str) -> (r: Vec<String>)
    ensures
        r@.len() == words(content@).len(),
        forall|i: int| 0 <= i < r@.len() ==> (#[trigger] r@[i])@ == words(content@)[i],
{
    let n = content.unicode_len();
    let ghost s = content@;
    let mut out: Vec<String> = Vec::new();
    let ghost mut got: Seq<Seq<char>> = seq![];
    let mut i: usize = 0;
    assert(s.skip(0) =~= s);
    assert(got + words(s.skip(0)) =~= words(s));
    while i < n
        invariant
            n == s.len(),
            s == content@,
            i <= n,
            got + words(s.skip(i as int)) == words(s),
            out@.len() == got.len(),
            forall|k: int| 0 <= k < out@.len() ==> (#[trigger] out@[k])@ == got[k],
        decreases n - i,
    {
        let c = content.get_char(i);
        if is_space_char(c) {
            proof {
                assert(s.skip(i as int).drop_first() =~= s.skip(i + 1));
                assert(s.skip(i as int)[0] == c);
            }
            i = i + 1;
        } else {
            let mut j = i + 1;
            while j < n && !is_space_char(content.get_char(j))
                invariant
                    n == s.len(),
                    s == content@,
                    i < j <= n,
                    forall|m: int| i <= m < j ==> !is_space(#[trigger] s[m]),
                decreases n - j,
            {
                j = j + 1;
            }
            let word = content.substring_char(i, j);
            let owned = String::from_str(word);
            proof {
                let t = s.skip(i as int);
                assert forall|m: int| 0 <= m < j - i implies !is_space(#[trigger] t[m]) by {
                    assert(t[m] == s[i + m]);
                }
                if j < n {
                    assert(t[j - i] == s[j as int]);
                }
                lemma_word_len_exact(t, j - i);
                assert(t[0] == c);
                assert(t.take(j - i) =~= s.subrange(i as int, j as int));
                assert(t.skip(j - i) =~= s.skip(j as int));
                assert(words(t) == seq![t.take(j - i)] + words(t.skip(j - i)));
                assert(got.push(owned@) + words(s.skip(j as int)) =~= got + words(t));
                got = got.push(owned@);
            }
            out.push(owned);
            i = j;
        }
    }
    proof {
        assert(s.skip(n as int) =~= Seq::<char>::empty());
        assert(got + words(s.skip(n as int)) =~= got);
    }
    out
}

/// Whether `a` and `b` are the same character, ignoring ASCII case.
fn same_char_ignoring_ascii_case(a: char, b: char) -> (r: bool)
    ensures
        r == same_ignoring_ascii_case(a, b),
{
    let x = a as u32;
    let y = b as u32;
    a == b || ('A' <= a && a <= 'Z' && x + 32 == y) || ('A' <= b && b <= 'Z' && y + 32 == x)
}

/// Whether `a` and `b` are the same word, compared as `case` says.
fn same_word_exec(a: &str, b: &str, case: Case) -> (r: bool)
    ensures
        r == same_word(a@, b@, case),
{
    let n = a.unicode_len();
    if n != b.unicode_len() {
        return false;
    }
    let mut i: usize = 0;
    while i < n
        invariant
            n == a@.len(),
            n == b@.len(),
            i <= n,
            forall|j: int|
                0 <= j < i ==> match case {
                    Case::Sensitive => a@[j] == b@[j],
                    Case::Insensitive => same_ignoring_ascii_case(#[trigger] a@[j], b@[j]),
                },
        decreases n - i,
    {
        let x = a.get_char(i);
        let y = b.get_char(i);
        let same = match case {
            Case::Sensitive => x == y,
            Case::Insensitive => same_char_ignoring_ascii_case(x, y),
        };
        if !same {
            return false;
        }
        i = i + 1;
    }
    proof {
        if case == Case::Sensitive {
            assert(a@ =~= b@);
        }
    }
    true
}

/// The arguments of the command `name` in the message `content`: the words
/// after the first, where the first calls that command.
pub fn parse(content: &str, name: &str, case: Case, prefix: Prefix) -> (r: Option<Vec<String>>)
    ensures
        match command_args(content@, name@, case, prefix) {
            Some(args) => r matches Some(v) && v@.len() == args.len() && forall|i: int|
                0 <= i < v@.len() ==> (#[trigger] v@[i])@ == args[i],
            None => r is None,
        },
{
    let mut words_of = split_words(content);
    if words_of.len() == 0 {
        return None;
    }
    let mut expected = String::new();
    match prefix {
        Prefix::Yes => {
            proof {
                reveal_strlit("!");
                assert(DEFAULT_PREFIX@ =~= seq!['!']);
            }
            expected.append(DEFAULT_PREFIX);
        },
        Prefix::No => {},
    }
    expected.append(name);
    assert(expected@ =~= command_word(name@, prefix));
    let ghost all = words_of@;
    let first = words_of.remove(0);
    assert(first == all[0]);
    if same_word_exec(first.as_str(), expected.as_str(), case) {
        proof {
            assert forall|i: int| 0 <= i < words_of@.len() implies (#[trigger] words_of@[i])@
                == words(content@).drop_first()[i] by {
                assert(words_of@[i] == all[i + 1]);
            }
        }
        Some(words_of)
    } else {
        None
    }
}

} // verus!
