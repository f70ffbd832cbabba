//! Choosing the name of the destination file.

use crate::error::DownloadError;
use vstd::prelude::*;
use vstd::std_specs::iter::IteratorSpec;

verus! {

/// The index of the last `/` in `url`, or -1 where it holds none.
pub open spec fn last_slash(url: Seq<char>) -> int
    decreases url.len(),
{
    if url.len() == 0 {
        -1
    } else if url.last() == '/' {
        url.len() - 1
    } else {
        last_slash(url.drop_last())
    }
}

/// The name a URL gives to its download: what follows its last `/`.
/// A URL without any `/` gives none.
pub open spec fn derived_name(url: Seq<char>) -> Option<Seq<char>> {
    if last_slash(url) < 0 {
        None
    } else {
        Some(url.subrange(last_slash(url) + 1, url.len() as int))
    }
}

/// `last_slash` of a prefix that is extended by one character.
proof fn last_slash_push(url: Seq<char>, c: char)
    ensures
        last_slash(url.push(c)) == if c == '/' {
            url.len() as int
        } else {
            last_slash(url)
        },
{
    assert(url.push(c).drop_last() =~= url);
}

/// Derives the destination's name from the URL: its final path segment.
///
/// Fails with `DownloadError::Naming` exactly when the URL holds no `/`.
/// The `//` that follows a scheme counts as any other `/`, and a URL that
/// ends in `/` gives the empty name.
pub fn prepare_file_name(what: &str) -> (res: Result<String, DownloadError>)
    ensures
        match res {
            Ok(name) => derived_name(what@) == Some(name@),
            Err(e) => e == DownloadError::Naming && derived_name(what@) is None,
        },
{
    let n: usize = what.unicode_len();
    let mut chars = what.chars();
    let mut i: usize = 0;
    let mut after: Option<usize> = None;
    proof {
        broadcast use vstd::string::group_string_axioms;
        assert(what@.take(0) =~= Seq::<char>::empty());
    }
    while i < n
        invariant
            n == what@.len(),
            i <= n,
            chars.remaining() == what@.skip(i as int),
            match after {
                Some(k) => 0 < k <= i && last_slash(what@.take(i as int)) == k - 1,
                None => last_slash(what@.take(i as int)) == -1,
            },
        decreases n - i,
    {
        proof {
            broadcast use vstd::string::group_string_axioms;
        }
        let next = chars.next();
        proof {
            last_slash_push(what@.take(i as int), what@[i as int]);
            assert(what@.take(i as int).push(what@[i as int]) =~= what@.take(i + 1));
            assert(what@.skip(i as int).drop_first() =~= what@.skip(i + 1));
        }
        if next == Some('/') {
            after = Some(i + 1);
        }
        i = i + 1;
    }
    proof {
        assert(what@.take(n as int) =~= what@);
    }
    match after {
        Some(k) => Ok(what.substring_char(k, n).to_owned()),
        None => Err(DownloadError::Naming),
    }
}

/// The decimal digit `d`, for `d` below ten.
pub open spec fn digit(d: nat) -> char {
    seq!['0', '1', '2', '3', '4', '5', '6', '7', '8', '9'][d as int]
}

/// The decimal numeral of `n`, without leading zeros.
pub open spec fn decimal(n: nat) -> Seq<char>
    decreases n,
{
    if n < 10 {
        seq![digit(n)]
    } else {
        decimal(n / 10).push(digit(n % 10))
    }
}

/// The name used where none was given and none could be derived.
pub open spec fn fallback_name_of(seed: u64) -> Seq<char> {
    "download_"@ + decimal(seed as nat) + ".something"@
}

/// The destination's name: the one given; else the one the URL gives; else
/// the fallback name made from `seed`.
pub open spec fn resolved_name(output: Option<Seq<char>>, url: Seq<char>, seed: u64) -> Seq<char> {
    match output {
        Some(given) => given,
        None => match derived_name(url) {
            Some(derived) => derived,
            None => fallback_name_of(seed),
        },
    }
}

fn digit_str(d: u64) -> (s: &'static str)
    requires
        d < 10,
    ensures
        s@ == seq![digit(d as nat)],
{
    proof {
        reveal_strlit("0");
        reveal_strlit("1");
        reveal_strlit("2");
        reveal_strlit("3");
        reveal_strlit("4");
        reveal_strlit("5");
        reveal_strlit("6");
        reveal_strlit("7");
        reveal_strlit("8");
        reveal_strlit("9");
    }
    let s: &'static str = if d == 0 {
        "0"
    } else if d == 1 {
        "1"
    } else if d == 2 {
        "2"
    } else if d == 3 {
        "3"
    } else if d == 4 {
        "4"
    } else if d == 5 {
        "5"
    } else if d == 6 {
        "6"
    } else if d == 7 {
        "7"
    } else if d == 8 {
        "8"
    } else {
        "9"
    };
    assert(s@ =~= seq![digit(d as nat)]);
    s
}

fn push_decimal(out: &mut String, n: u64)
    ensures
        final(out)@ == old(out)@ + decimal(n as nat),
    decreases n,
{
    if n >= 10 {
        push_decimal(out, n / 10);
    }
    out.append(digit_str(n % 10));
    assert(out@ =~= old(out)@ + decimal(n as nat));
}

/// Makes the fallback name from a number: `download_`, the number in
/// decimal, `.something`.
pub fn fallback_name(seed: u64) -> (name: String)
    ensures
        name@ == fallback_name_of(seed),
{
    let mut name = "download_".to_owned();
    push_decimal(&mut name, seed);
    name.append(".something");
    name
}

/// Chooses the destination's name, given the number to use should the
/// fallback be needed.
///
/// A name that was given is kept as it is. Without one, the name is derived
/// from the URL; where the URL gives none, the fallback name is made from
/// `seed`. The derivation's failure never reaches the caller.
pub fn resolve_name(output: Option<String>, url: &str, seed: u64) -> (name: String)
    ensures
        name@ == resolved_name(output.deep_view(), url@, seed),
{
    match output {
        Some(given) => given,
        None => match prepare_file_name(url) {
            Ok(derived) => derived,
            Err(_) => fallback_name(seed),
        },
    }
}

/// Calls `rand::random::<u64>()`, which draws a number from the thread's
/// generator. Nothing is claimed of the number. The call panics only where
/// the generator cannot be seeded from the operating system.
#[verifier::external_body]
fn random_seed() -> u64 {
    rand::random::<u64>()
}

/// Chooses the destination's name, drawing the fallback's number at random
/// where it is needed.
///
/// The result is what `resolve_name` gives for some number. Which number is
/// not determined, so two calls on a URL without a `/` may differ.
pub fn choose_name(output: Option<String>, url: &str) -> (name: String)
    ensures
        exists|seed: u64| name@ == #[trigger] resolved_name(output.deep_view(), url@, seed),
{
    let ghost wanted = output.deep_view();
    match output {
        Some(given) => {
            assert(given@ == resolved_name(wanted, url@, 0));
            given
        },
        None => match prepare_file_name(url) {
            Ok(derived) => {
                assert(derived@ == resolved_name(wanted, url@, 0));
                derived
            },
            Err(_) => {
                let seed = random_seed();
                let name = fallback_name(seed);
                assert(name@ == resolved_name(wanted, url@, seed));
                name
            },
        },
    }
}

/// A URL that ends in `/` and a segment without any `/` is named after
/// that segment, whatever stands before the `/`.
pub proof fn lemma_name_is_final_segment(prefix: Seq<char>, segment: Seq<char>)
    requires
        !segment.contains('/'),
    ensures
        last_slash(prefix.push('/') + segment) == prefix.len(),
        derived_name(prefix.push('/') + segment) == Some(segment),
    decreases segment.len(),
{
    let url = prefix.push('/') + segment;
    if segment.len() == 0 {
        assert(url =~= prefix.push('/'));
        assert(url.subrange(url.len() as int, url.len() as int) =~= segment);
    } else {
        let shorter = segment.drop_last();
        assert(segment[segment.len() - 1] == segment.last());
        assert(segment.contains(segment.last()));
        assert forall|i: int| 0 <= i < shorter.len() implies shorter[i] != '/' by {
            assert(segment.contains(segment[i]));
        }
        lemma_name_is_final_segment(prefix, shorter);
        let before = prefix.push('/') + shorter;
        assert(url.drop_last() =~= before);
        assert(last_slash(url) == last_slash(before));
        assert(last_slash(before) == prefix.len());
        assert(url.subrange(prefix.len() as int + 1, url.len() as int) =~= segment);
    }
}

/// A URL gives a name exactly when it holds a `/`.
pub proof fn lemma_name_needs_slash(url: Seq<char>)
    ensures
        derived_name(url) is Some <==> url.contains('/'),
        last_slash(url) < url.len(),
        last_slash(url) >= 0 ==> url[last_slash(url)] == '/',
    decreases url.len(),
{
    if url.len() == 0 {
    } else if url.last() == '/' {
        assert(url[url.len() - 1] == '/');
    } else {
        lemma_name_needs_slash(url.drop_last());
        if url.drop_last().contains('/') {
            let i = choose|i: int| 0 <= i < url.drop_last().len() && url.drop_last()[i] == '/';
            assert(url[i] == '/');
        }
        if url.contains('/') {
            let i = choose|i: int| 0 <= i < url.len() && url[i] == '/';
            assert(url.drop_last()[i] == '/');
        }
    }
}

} // verus!
