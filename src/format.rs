//! The placeholder substitution of `print("... {} ...", e1, e2, ...)`.
use vstd::prelude::*;
use crate::text::chars_of;
use crate::text::push_all;
use crate::text::push_str;

verus! {

/// The first index at or after `from` where `{}` starts in `s`.
pub open spec fn first_placeholder(s: Seq<char>, from: int) -> Option<int>
    decreases s.len() - from,
{
    if from < 0 || from + 1 >= s.len() {
        None
    } else if s[from] == '{' && s[from + 1] == '}' {
        Some(from)
    } else {
        first_placeholder(s, from + 1)
    }
}

/// `s` with its leading `{}` placeholders replaced, left to right, by the
/// texts of `args`; a replacement is never searched again. `None` when
/// there are fewer placeholders than texts; extra placeholders stay.
pub open spec fn substitute(s: Seq<char>, args: Seq<Seq<char>>) -> Option<Seq<char>>
    decreases args.len(),
{
    if args.len() == 0 {
        Some(s)
    } else {
        match first_placeholder(s, 0) {
            None => None,
            Some(k) => match substitute(s.subrange(k + 2, s.len() as int), args.drop_first()) {
                None => None,
                Some(rest) => Some(s.subrange(0, k) + args[0] + rest),
            },
        }
    }
}

/// How many `{}` placeholders a left-to-right scan of `s` finds, each
/// search starting after the previous placeholder.
pub open spec fn placeholder_count(s: Seq<char>) -> nat
    decreases s.len(),
{
    match first_placeholder(s, 0) {
        Some(k) => if 0 <= k && k + 2 <= s.len() {
            1 + placeholder_count(s.subrange(k + 2, s.len() as int))
        } else {
            0
        },
        None => 0,
    }
}

proof fn lemma_first_placeholder_bounds(s: Seq<char>, from: int)
    ensures
        first_placeholder(s, from) matches Some(k) ==> from <= k && k + 2 <= s.len(),
    decreases s.len() - from,
{
    if !(from < 0 || from + 1 >= s.len()) && !(s[from] == '{' && s[from + 1] == '}') {
        lemma_first_placeholder_bounds(s, from + 1);
    }
}

/// The substitution fails exactly when there are more texts than
/// placeholders.
pub proof fn lemma_substitute_fails(s: Seq<char>, args: Seq<Seq<char>>)
    ensures
        substitute(s, args) is None <==> args.len() > placeholder_count(s),
    decreases args.len(),
{
    lemma_first_placeholder_bounds(s, 0);
    if args.len() > 0 {
        match first_placeholder(s, 0) {
            Some(k) => {
                lemma_substitute_fails(s.subrange(k + 2, s.len() as int), args.drop_first());
            },
            None => {},
        }
    }
}

/// The views of a list of texts.
pub open spec fn texts(v: Seq<Vec<char>>) -> Seq<Seq<char>> {
    v.map_values(|t: Vec<char>| t@)
}

proof fn lemma_first_placeholder_shift(s: Seq<char>, p: int, from: int)
    requires
        0 <= p <= s.len(),
        0 <= from,
    ensures
        first_placeholder(s.subrange(p, s.len() as int), from) == match first_placeholder(s, p + from) {
            Some(k) => Some(k - p),
            None => None::<int>,
        },
    decreases s.len() - p - from,
{
    let t = s.subrange(p, s.len() as int);
    if from + 1 < t.len() {
        assert(t[from] == s[p + from]);
        assert(t[from + 1] == s[p + from + 1]);
        lemma_first_placeholder_shift(s, p, from + 1);
    }
}

/// Replaces the placeholders of `fmt` by `args` as [`substitute`] says.
pub fn fill_placeholders(fmt: &Vec<char>, args: &Vec<Vec<char>>) -> (r: Result<Vec<char>, Vec<char>>)
    ensures
        match substitute(fmt@, texts(args@)) {
            Some(s) => r is Ok && r->Ok_0@ == s,
            None => r is Err,
        },
        r is Err <==> args@.len() > placeholder_count(fmt@),
{
    proof {
        lemma_substitute_fails(fmt@, texts(args@));
        assert(texts(args@).len() == args@.len());
    }
    let mut out: Vec<char> = Vec::new();
    let mut pos: usize = 0;
    let mut j: usize = 0;
    let ghost all = texts(args@);
    assert(fmt@.subrange(0, fmt@.len() as int) =~= fmt@);
    assert(all.subrange(0, all.len() as int) =~= all);
    while j < args.len()
        invariant
            pos <= fmt@.len(),
            j <= args@.len(),
            all == texts(args@),
            substitute(fmt@, all) is None <==> args@.len() > placeholder_count(fmt@),
            substitute(fmt@, all) == match substitute(fmt@.subrange(pos as int, fmt@.len() as int), all.subrange(j as int, all.len() as int)) {
                Some(x) => Some(out@ + x),
                None => None::<Seq<char>>,
            },
        decreases args@.len() - j,
    {
        let ghost rest = fmt@.subrange(pos as int, fmt@.len() as int);
        let ghost pending_args = all.subrange(j as int, all.len() as int);
        let mut k: usize = pos;
        proof {
            lemma_first_placeholder_shift(fmt@, pos as int, 0);
        }
        while k < fmt.len() && k + 1 < fmt.len() && !(fmt[k] == '{' && fmt[k + 1] == '}')
            invariant
                pos <= k <= fmt@.len(),
                first_placeholder(fmt@, pos as int) == first_placeholder(fmt@, k as int),
            decreases fmt@.len() - k,
        {
            k = k + 1;
        }
        if k >= fmt.len() || k + 1 >= fmt.len() {
            assert(first_placeholder(rest, 0) is None);
            assert(substitute(rest, pending_args) is None);
            let mut m = chars_of("Not enough placeholders ({}) in format string: \"");
            push_all(&mut m, fmt);
            push_str(&mut m, "\"");
            return Err(m);
        }
        let ghost rel = (k - pos) as int;
        assert(first_placeholder(rest, 0) == Some(rel));
        let mut i: usize = pos;
        let ghost out0 = out@;
        while i < k
            invariant
                pos <= i <= k,
                k < fmt@.len(),
                out@ == out0 + fmt@.subrange(pos as int, i as int),
            decreases k - i,
        {
            out.push(fmt[i]);
            i = i + 1;
            assert(fmt@.subrange(pos as int, i as int) =~= fmt@.subrange(pos as int, i - 1).push(fmt@[i - 1]));
        }
        push_all(&mut out, &args[j]);
        proof {
            assert(rest.subrange(0, rel) =~= fmt@.subrange(pos as int, k as int));
            assert(rest.subrange(rel + 2, rest.len() as int) =~= fmt@.subrange(k + 2, fmt@.len() as int));
            assert(pending_args.drop_first() =~= all.subrange(j + 1, all.len() as int));
            assert(pending_args[0] == args@[j as int]@);
        }
        pos = k + 2;
        j = j + 1;
    }
    proof {
        assert(all.subrange(j as int, all.len() as int) =~= Seq::<Seq<char>>::empty());
    }
    let mut i: usize = pos;
    let ghost out0 = out@;
    while i < fmt.len()
        invariant
            pos <= i <= fmt@.len(),
            out@ == out0 + fmt@.subrange(pos as int, i as int),
        decreases fmt@.len() - i,
    {
        out.push(fmt[i]);
        i = i + 1;
        assert(fmt@.subrange(pos as int, i as int) =~= fmt@.subrange(pos as int, i - 1).push(fmt@[i - 1]));
    }
    Ok(out)
}

} // verus!
