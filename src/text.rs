//! Small text helpers: quoting for SQL literals, trimming search queries,
//! and the readiness poll's message.
use vstd::prelude::*;
use std::borrow::Cow;

verus! {

/// Relies on `String::push`: appends one character.
#[verifier::external_body]
pub(crate) fn push_char(s: &mut String, c: char)
    ensures
        final(s)@ == old(s)@.push(c),
{
    s.push(c);
}

/// `s` with every single quote doubled, as a SQL string literal needs.
pub open spec fn escaped(s: Seq<char>) -> Seq<char>
    decreases s.len(),
{
    if s.len() == 0 {
        Seq::empty()
    } else if s.last() == '\'' {
        escaped(s.drop_last()) + seq!['\'', '\'']
    } else {
        escaped(s.drop_last()).push(s.last())
    }
}

/// Doubles every single quote of `s`; `s` itself when it holds none.
pub fn escape_str(s: &str) -> (r: Cow<'_, str>)
    ensures
        r@ == escaped(s@),
{
    let n = s.unicode_len();
    let mut out = String::new();
    let mut quoted = false;
    let mut i: usize = 0;
    while i < n
        invariant
            n == s@.len(),
            i <= n,
            out@ == escaped(s@.subrange(0, i as int)),
            quoted == exists|k: int| 0 <= k < i && s@[k] == '\'',
        decreases n - i,
    {
        let c = s.get_char(i);
        let ghost pre = s@.subrange(0, i as int);
        assert(s@.subrange(0, i + 1).drop_last() =~= pre);
        if c == '\'' {
            push_char(&mut out, '\'');
            push_char(&mut out, '\'');
            quoted = true;
            assert(out@ =~= escaped(pre) + seq!['\'', '\'']);
        } else {
            push_char(&mut out, c);
        }
        i = i + 1;
    }
    assert(s@.subrange(0, n as int) =~= s@);
    if quoted {
        Cow::Owned(out)
    } else {
        proof {
            lemma_escaped_plain(s@);
        }
        Cow::Borrowed(s)
    }
}

proof fn lemma_escaped_plain(s: Seq<char>)
    requires
        forall|k: int| 0 <= k < s.len() ==> s[k] != '\'',
    ensures
        escaped(s) == s,
    decreases s.len(),
{
    if s.len() > 0 {
        lemma_escaped_plain(s.drop_last());
        assert(s.drop_last().push(s.last()) =~= s);
    }
}

/// Characters that a search query drops.
pub open spec fn is_query_noise(c: char) -> bool {
    c == '"' || c == '\'' || c == '+' || c == '(' || c == ')' || c == '[' || c == ']'
}

/// The characters of `s` that are not query noise, in order.
pub open spec fn without_noise(s: Seq<char>) -> Seq<char>
    decreases s.len(),
{
    if s.len() == 0 {
        Seq::empty()
    } else if is_query_noise(s.last()) {
        without_noise(s.drop_last())
    } else {
        without_noise(s.drop_last()).push(s.last())
    }
}

/// The first `k` characters of `s`, or all of them when there are fewer.
pub open spec fn cut(s: Seq<char>, k: int) -> Seq<char> {
    if s.len() <= k {
        s
    } else {
        s.take(k)
    }
}

/// The most characters a search query keeps.
pub const QUERY_LIMIT: usize = 30;

proof fn lemma_without_noise_prefix(s: Seq<char>, i: int, j: int)
    requires
        0 <= i <= j <= s.len(),
    ensures
        without_noise(s.subrange(0, i)).len() <= without_noise(s.subrange(0, j)).len(),
        without_noise(s.subrange(0, j)).subrange(0, without_noise(s.subrange(0, i)).len() as int)
            == without_noise(s.subrange(0, i)),
    decreases j - i,
{
    if i < j {
        lemma_without_noise_prefix(s, i, j - 1);
        assert(s.subrange(0, j).drop_last() =~= s.subrange(0, j - 1));
        let a = without_noise(s.subrange(0, i));
        let b = without_noise(s.subrange(0, j - 1));
        let c = without_noise(s.subrange(0, j));
        assert(c.subrange(0, a.len() as int) =~= b.subrange(0, a.len() as int));
    } else {
        let a = without_noise(s.subrange(0, i));
        assert(a.subrange(0, a.len() as int) =~= a);
    }
}

/// `s` without quotes, plus signs, parentheses and brackets, cut to its
/// first thirty remaining characters.
pub fn sanitize_string(s: &str) -> (r: String)
    ensures
        r@ == cut(without_noise(s@), QUERY_LIMIT as int),
{
    let n = s.unicode_len();
    let mut out = String::new();
    let mut kept: usize = 0;
    let mut i: usize = 0;
    while i < n && kept < QUERY_LIMIT
        invariant
            n == s@.len(),
            i <= n,
            kept <= QUERY_LIMIT,
            kept == out@.len(),
            out@ == without_noise(s@.subrange(0, i as int)),
        decreases n - i,
    {
        let c = s.get_char(i);
        assert(s@.subrange(0, i + 1).drop_last() =~= s@.subrange(0, i as int));
        if !(c == '"' || c == '\'' || c == '+' || c == '(' || c == ')' || c == '[' || c == ']') {
            push_char(&mut out, c);
            kept = kept + 1;
        }
        i = i + 1;
    }
    proof {
        assert(s@.subrange(0, n as int) =~= s@);
        lemma_without_noise_prefix(s@, i as int, n as int);
        if kept == QUERY_LIMIT {
            assert(without_noise(s@).take(QUERY_LIMIT as int) =~= out@);
        }
    }
    out
}

/// `names` joined with `", "` between them.
pub open spec fn joined(names: Seq<Seq<char>>) -> Seq<char>
    decreases names.len(),
{
    if names.len() == 0 {
        Seq::empty()
    } else if names.len() == 1 {
        names[0]
    } else {
        joined(names.drop_last()) + ", "@ + names.last()
    }
}

/// The readiness poll's text: who is ready so far, if anyone.
pub open spec fn ready_message(names: Seq<Seq<char>>) -> Seq<char> {
    if names.len() == 0 {
        "Ready?"@
    } else {
        "Ready? ("@ + joined(names) + (if names.len() == 1 { " is"@ } else { " are"@ }) + " ready)"@
    }
}

pub open spec fn names_view(names: Seq<String>) -> Seq<Seq<char>> {
    names.map_values(|s: String| s@)
}

/// The readiness poll's text for the users in `usernames`, in order.
pub fn build_message(usernames: &[String]) -> (r: String)
    ensures
        r@ == ready_message(names_view(usernames@)),
{
    let ghost names = names_view(usernames@);
    if usernames.len() == 0 {
        return String::from_str("Ready?");
    }
    let mut msg = String::from_str("Ready? (");
    let ghost head = "Ready? ("@;
    let mut i: usize = 0;
    while i < usernames.len()
        invariant
            names == names_view(usernames@),
            0 < usernames@.len(),
            i <= usernames@.len(),
            msg@ == head + joined(names.subrange(0, i as int)),
        decreases usernames@.len() - i,
    {
        if i > 0 {
            msg.append(", ");
        }
        msg.append(usernames[i].as_str());
        proof {
            let now = names.subrange(0, i + 1);
            assert(now.drop_last() =~= names.subrange(0, i as int));
            assert(now.last() == usernames@[i as int]@);
            if i == 0 {
                assert(joined(names.subrange(0, 0)) =~= Seq::<char>::empty());
                assert(msg@ =~= head + joined(now));
            } else {
                assert(msg@ =~= head + joined(now));
            }
        }
        i = i + 1;
    }
    assert(names.subrange(0, i as int) =~= names);
    if usernames.len() == 1 {
        msg.append(" is");
    } else {
        msg.append(" are");
    }
    msg.append(" ready)");
    msg
}

} // verus!
