//! Prompt templates: text in which `$KEY` stands for the value that the
//! environment gives to `KEY`.
//!
//! A key is the longest run of ASCII letters, digits and underscores that
//! follows a dollar sign. A dollar sign that no such character follows is
//! ordinary text.

use vstd::prelude::*;
use vstd::string::*;
use crate::environment::Environment;
use crate::text::chars_of;

verus! {

/// Whether `c` may stand in a key.
pub open spec fn is_key_char(c: char) -> bool {
    ('a' <= c && c <= 'z') || ('A' <= c && c <= 'Z') || ('0' <= c && c <= '9') || c == '_'
}

/// Length of the longest prefix of `s` that is made of key characters.
pub open spec fn key_len(s: Seq<char>) -> nat
    decreases s.len(),
{
    if s.len() > 0 && is_key_char(s[0]) {
        1 + key_len(s.drop_first())
    } else {
        0
    }
}

/// `front` put before the outcome `rest`, where that is a text.
pub open spec fn prepend(front: Seq<char>, rest: Result<Seq<char>, Seq<char>>) -> Result<
    Seq<char>,
    Seq<char>,
> {
    match rest {
        Ok(text) => Ok(front + text),
        Err(key) => Err(key),
    }
}

/// The template with each `$KEY` replaced by the value of `KEY` in `env`,
/// or, as the error, the first key from the left that `env` does not hold.
pub open spec fn resolved(template: Seq<char>, env: Map<Seq<char>, Seq<char>>) -> Result<
    Seq<char>,
    Seq<char>,
>
    decreases template.len(),
{
    if template.len() == 0 {
        Ok(Seq::empty())
    } else if template[0] == '$' && key_len(template.skip(1)) > 0 {
        let n = key_len(template.skip(1)) as int;
        let key = template.subrange(1, 1 + n);
        if env.contains_key(key) {
            proof {
                lemma_key_len_bound(template.skip(1));
            }
            prepend(env[key], resolved(template.skip(1 + n), env))
        } else {
            Err(key)
        }
    } else {
        prepend(seq![template[0]], resolved(template.skip(1), env))
    }
}

/// The keys that `template` names, from left to right.
pub open spec fn keys(template: Seq<char>) -> Seq<Seq<char>>
    decreases template.len(),
{
    if template.len() == 0 {
        Seq::empty()
    } else if template[0] == '$' && key_len(template.skip(1)) > 0 {
        let n = key_len(template.skip(1)) as int;
        proof {
            lemma_key_len_bound(template.skip(1));
        }
        seq![template.subrange(1, 1 + n)] + keys(template.skip(1 + n))
    } else {
        keys(template.skip(1))
    }
}

/// A key never runs past the end of the text.
pub proof fn lemma_key_len_bound(s: Seq<char>)
    ensures
        key_len(s) <= s.len(),
    decreases s.len(),
{
    if s.len() > 0 && is_key_char(s[0]) {
        lemma_key_len_bound(s.drop_first());
    }
}

/// A run of `k` key characters that ends the text, or that another
/// character follows, is the key.
proof fn lemma_key_len(s: Seq<char>, k: int)
    requires
        0 <= k <= s.len(),
        forall|i: int| 0 <= i < k ==> is_key_char(#[trigger] s[i]),
        k == s.len() || !is_key_char(s[k]),
    ensures
        key_len(s) == k,
    decreases k,
{
    if k > 0 {
        let t = s.drop_first();
        assert forall|i: int| 0 <= i < k - 1 implies is_key_char(#[trigger] t[i]) by {
            assert(t[i] == s[i + 1]);
        }
        lemma_key_len(t, k - 1);
    }
}

/// Putting two texts in front, one after the other, is putting their
/// concatenation in front.
proof fn lemma_prepend_twice(a: Seq<char>, b: Seq<char>, rest: Result<Seq<char>, Seq<char>>)
    ensures
        prepend(a, prepend(b, rest)) == prepend(a + b, rest),
{
    match rest {
        Ok(text) => {
            assert(a + (b + text) =~= (a + b) + text);
        },
        Err(_) => {},
    }
}

/// Text without a dollar sign, but perhaps for one at its front that
/// starts no key, stands for itself.
proof fn lemma_literal_run(template: Seq<char>, env: Map<Seq<char>, Seq<char>>, m: int)
    requires
        1 <= m <= template.len(),
        !(template[0] == '$' && key_len(template.skip(1)) > 0),
        forall|k: int| 1 <= k < m ==> #[trigger] template[k] != '$',
    ensures
        resolved(template, env) == prepend(template.take(m), resolved(template.skip(m), env)),
    decreases m,
{
    let tail = template.skip(1);
    if m == 1 {
        assert(template.take(1) =~= seq![template[0]]);
    } else {
        assert(tail[0] == template[1]);
        assert forall|k: int| 1 <= k < m - 1 implies #[trigger] tail[k] != '$' by {
            assert(tail[k] == template[k + 1]);
        }
        lemma_literal_run(tail, env, m - 1);
        assert(tail.skip(m - 1) =~= template.skip(m));
        lemma_prepend_twice(seq![template[0]], tail.take(m - 1), resolved(template.skip(m), env));
        assert(seq![template[0]] + tail.take(m - 1) =~= template.take(m));
    }
}

/// A template is resolved exactly if the environment holds every key that
/// it names; else the error is the first of its keys, from the left, that
/// the environment lacks.
pub proof fn lemma_resolved_iff_keys_present(template: Seq<char>, env: Map<Seq<char>, Seq<char>>)
    ensures
        resolved(template, env) is Ok <==> forall|i: int|
            0 <= i < keys(template).len() ==> env.contains_key(#[trigger] keys(template)[i]),
        match resolved(template, env) {
            Ok(_) => true,
            Err(key) => exists|i: int|
                0 <= i < keys(template).len() && #[trigger] keys(template)[i] == key
                    && !env.contains_key(key) && forall|j: int|
                    0 <= j < i ==> env.contains_key(#[trigger] keys(template)[j]),
        },
    decreases template.len(),
{
    let all = keys(template);
    if template.len() == 0 {
    } else if template[0] == '$' && key_len(template.skip(1)) > 0 {
        let n = key_len(template.skip(1)) as int;
        lemma_key_len_bound(template.skip(1));
        let key = template.subrange(1, 1 + n);
        let rest = template.skip(1 + n);
        assert(all =~= seq![key] + keys(rest));
        assert(all[0] == key);
        assert forall|i: int| 0 <= i < keys(rest).len() implies #[trigger] keys(rest)[i] == all[i
            + 1] by {}
        lemma_resolved_iff_keys_present(rest, env);
        if env.contains_key(key) {
            assert(resolved(template, env) == prepend(env[key], resolved(rest, env)));
            match resolved(rest, env) {
                Ok(_) => {
                    assert forall|i: int| 0 <= i < all.len() implies env.contains_key(
                        #[trigger] all[i],
                    ) by {
                        if i > 0 {
                            assert(all[i] == keys(rest)[i - 1]);
                        }
                    }
                },
                Err(missing) => {
                    let i = choose|i: int|
                        0 <= i < keys(rest).len() && #[trigger] keys(rest)[i] == missing
                            && !env.contains_key(missing) && forall|j: int|
                            0 <= j < i ==> env.contains_key(#[trigger] keys(rest)[j]);
                    assert(all[i + 1] == missing);
                    assert forall|j: int| 0 <= j < i + 1 implies env.contains_key(
                        #[trigger] all[j],
                    ) by {
                        if j > 0 {
                            assert(all[j] == keys(rest)[j - 1]);
                        }
                    }
                    assert(resolved(template, env) == Err::<Seq<char>, Seq<char>>(missing));
                },
            }
        } else {
            assert(resolved(template, env) == Err::<Seq<char>, Seq<char>>(key));
            assert(!env.contains_key(all[0]));
        }
    } else {
        let rest = template.skip(1);
        assert(all == keys(rest));
        assert(resolved(template, env) == prepend(seq![template[0]], resolved(rest, env)));
        lemma_resolved_iff_keys_present(rest, env);
    }
}

/// Text without a dollar sign stands for itself, whatever the environment.
pub proof fn lemma_plain_text_is_kept(template: Seq<char>, env: Map<Seq<char>, Seq<char>>)
    requires
        forall|i: int| 0 <= i < template.len() ==> #[trigger] template[i] != '$',
    ensures
        resolved(template, env) == Ok::<Seq<char>, Seq<char>>(template),
{
    if template.len() > 0 {
        let n = template.len() as int;
        assert(key_len(template.skip(1)) == 0 || template[0] != '$');
        lemma_literal_run(template, env, n);
        assert(template.take(n) =~= template);
        assert(template.skip(n).len() == 0);
        assert(resolved(template.skip(n), env) == Ok::<Seq<char>, Seq<char>>(Seq::empty()));
        assert(template + Seq::<char>::empty() =~= template);
    } else {
        assert(template =~= Seq::<char>::empty());
    }
}

/// A prompt names a key that the environment does not hold.
#[derive(Debug, PartialEq, Eq)]
pub struct VariableResolutionError {
    /// The missing key, without its dollar sign.
    pub key: String,
}

/// Whether `c` may stand in a key.
pub fn key_char(c: char) -> (r: bool)
    ensures
        r == is_key_char(c),
{
    ('a' <= c && c <= 'z') || ('A' <= c && c <= 'Z') || ('0' <= c && c <= '9') || c == '_'
}

/// Replaces each `$KEY` of `template` by the value of `KEY` in `env`.
/// Fails on the first key from the left that `env` does not hold.
pub fn resolve(template: &str, env: &Environment) -> (outcome: Result<
    String,
    VariableResolutionError,
>)
    ensures
        match outcome {
            Ok(text) => resolved(template@, env@) == Ok::<Seq<char>, Seq<char>>(text@),
            Err(missing) => resolved(template@, env@) == Err::<Seq<char>, Seq<char>>(
                missing.key@,
            ),
        },
{
    let chars = chars_of(template);
    let n = chars.len();
    let mut out = String::new();
    let mut i: usize = 0;
    assert(template@.skip(0) =~= template@);
    assert(prepend(out@, resolved(template@, env@)) == resolved(template@, env@)) by {
        match resolved(template@, env@) {
            Ok(text) => {
                assert(out@ + text =~= text);
            },
            Err(_) => {},
        }
    }
    while i < n
        invariant
            chars@ == template@,
            n == chars.len(),
            i <= n,
            resolved(template@, env@) == prepend(out@, resolved(template@.skip(i as int), env@)),
        decreases n - i,
    {
        let ghost rest = template@.skip(i as int);
        let ghost done = out@;
        let mut j: usize = i + 1;
        if chars[i] == '$' {
            while j < n && key_char(chars[j])
                invariant
                    chars@ == template@,
                    n == chars.len(),
                    i < j <= n,
                    forall|k: int| i < k < j ==> is_key_char(#[trigger] template@[k]),
                decreases n - j,
            {
                j += 1;
            }
        }
        proof {
            let tail = rest.skip(1);
            assert(rest[0] == template@[i as int]);
            assert forall|k: int| 0 <= k < j - i - 1 implies is_key_char(#[trigger] tail[k]) by {
                assert(tail[k] == template@[i + 1 + k]);
            }
            if chars[i as int] == '$' {
                if j < n {
                    assert(tail[j - i - 1] == template@[j as int]);
                }
                lemma_key_len(tail, j - i - 1);
            }
        }
        if j > i + 1 {
            let key = template.substring_char(i + 1, j);
            assert(rest.subrange(1, j - i) =~= template@.subrange(i + 1, j as int));
            match env.get(key) {
                Some(value) => {
                    out.append(value.as_str());
                },
                None => {
                    return Err(VariableResolutionError { key: key.to_owned() });
                },
            }
            proof {
                lemma_prepend_twice(
                    done,
                    env@[key@],
                    resolved(template@.skip(j as int), env@),
                );
            }
        } else {
            while j < n && chars[j] != '$'
                invariant
                    chars@ == template@,
                    n == chars.len(),
                    i < j <= n,
                    forall|k: int| i < k < j ==> #[trigger] template@[k] != '$',
                decreases n - j,
            {
                j += 1;
            }
            out.append(template.substring_char(i, j));
            proof {
                assert forall|k: int| 1 <= k < j - i implies #[trigger] rest[k] != '$' by {
                    assert(rest[k] == template@[i + k]);
                }
                lemma_literal_run(rest, env@, j - i);
                assert(rest.take(j - i) =~= template@.subrange(i as int, j as int));
                lemma_prepend_twice(
                    done,
                    rest.take(j - i),
                    resolved(template@.skip(j as int), env@),
                );
            }
        }
        assert(rest.skip(j - i) =~= template@.skip(j as int));
        i = j;
    }
    proof {
        assert(template@.skip(n as int) =~= Seq::<char>::empty());
        assert(out@ + Seq::<char>::empty() =~= out@);
    }
    Ok(out)
}

} // verus!
