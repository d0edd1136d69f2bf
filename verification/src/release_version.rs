//! The release version embedded in the binary.
use vstd::prelude::*;
use crate::text::{chars_of, digits_value, is_digit};

verus! {

/// Splits `s` at every `.` (as `str::split('.')` does): each `.` starts a new,
/// initially empty part, and every other character extends the current part.
pub open spec fn split_dots(s: Seq<char>) -> Seq<Seq<char>>
    decreases s.len(),
{
    if s.len() == 0 {
        seq![Seq::<char>::empty()]
    } else {
        let prev = split_dots(s.drop_last());
        if s.last() == '.' {
            prev.push(Seq::<char>::empty())
        } else {
            prev.update(prev.len() - 1, prev.last().push(s.last()))
        }
    }
}

/// One numeric component of a stable version: non-empty ASCII digits, no
/// leading zero (other than `0` itself), and a value that fits in a `u64`.
pub open spec fn valid_version_part(p: Seq<char>) -> bool {
    &&& p.len() > 0
    &&& forall|i: int| 0 <= i < p.len() ==> is_digit(#[trigger] p[i])
    &&& !(p.len() > 1 && p[0] == '0')
    &&& digits_value(p) <= u64::MAX
}

/// A stable `major.minor.patch` version.
pub open spec fn valid_release_version(s: Seq<char>) -> bool {
    let parts = split_dots(s);
    &&& parts.len() == 3
    &&& forall|i: int| 0 <= i < 3 ==> valid_version_part(#[trigger] parts[i])
}

/// The message of the error for a malformed injected version.
pub open spec fn release_version_error() -> Seq<char> {
    "Release version must be a stable major.minor.patch version"@
}

proof fn lemma_split_dots_nonempty(s: Seq<char>)
    ensures
        split_dots(s).len() >= 1,
    decreases s.len(),
{
    if s.len() > 0 {
        lemma_split_dots_nonempty(s.drop_last());
    }
}

fn check_version_part(p: &Vec<char>) -> (ok: bool)
    ensures
        ok == valid_version_part(p@),
{
    let n = p.len();
    if n == 0 {
        return false;
    }
    if n > 1 && p[0] == '0' {
        proof {
            assert(!valid_version_part(p@));
        }
        // a leading zero is rejected whatever follows
        return false;
    }
    let mut acc: u64 = 0;
    let mut fits = true;
    let mut i: usize = 0;
    while i < n
        invariant
            n == p@.len(),
            i <= n,
            forall|j: int| 0 <= j < i ==> is_digit(#[trigger] p@[j]),
            fits ==> acc == digits_value(p@.take(i as int)),
            !fits ==> digits_value(p@.take(i as int)) > u64::MAX,
        decreases n - i,
    {
        let c = p[i];
        if !('0' <= c && c <= '9') {
            proof {
                assert(!is_digit(p@[i as int]));
            }
            return false;
        }
        proof {
            assert(p@.take(i + 1).drop_last() =~= p@.take(i as int));
        }
        if fits {
            let d = (c as u32 - '0' as u32) as u64;
            let wide: u128 = acc as u128 * 10 + d as u128;
            if wide > u64::MAX as u128 {
                fits = false;
            } else {
                acc = wide as u64;
            }
        }
        i = i + 1;
    }
    proof {
        assert(p@.take(n as int) =~= p@);
    }
    fits
}

/// The version to embed: the injected release version when one is given and
/// is a stable `major.minor.patch` version, the package version when none is
/// given, and an error (never a fallback) when an injected one is malformed.
pub fn resolve_release_version(injected: Option<&str>, package: &str) -> (res: Result<
    String,
    &'static str,
>)
    ensures
        match injected {
            None => (res matches Ok(v) && v@ == package@),
            Some(s) => if valid_release_version(s@) {
                (res matches Ok(v) && v@ == s@)
            } else {
                (res matches Err(e) && e@ == release_version_error())
            },
        },
{
    let version = match injected {
        None => {
            return Ok(String::from_str(package));
        },
        Some(v) => v,
    };
    let cs = chars_of(version);
    let n = cs.len();
    let mut cur: Vec<char> = Vec::new();
    let mut done: usize = 0;
    let mut all_ok = true;
    let mut i: usize = 0;
    proof {
        assert(cs@.take(0) =~= Seq::<char>::empty());
    }
    while i < n
        invariant
            n == cs@.len(),
            cs@ == version@,
            i <= n,
            done <= i,
            ({
                let sp = split_dots(cs@.take(i as int));
                &&& sp.len() == done + 1
                &&& cur@ == sp.last()
                &&& all_ok <==> forall|j: int| 0 <= j < done ==> valid_version_part(
                    #[trigger] sp[j],
                )
            }),
        decreases n - i,
    {
        let c = cs[i];
        let ghost prev = split_dots(cs@.take(i as int));
        proof {
            assert(cs@.take(i + 1).drop_last() =~= cs@.take(i as int));
            assert(cs@.take(i + 1).last() == c);
        }
        if c == '.' {
            let part_ok = check_version_part(&cur);
            let ghost old_ok = all_ok;
            let ghost old_cur = cur@;
            all_ok = all_ok && part_ok;
            cur = Vec::new();
            done = done + 1;
            proof {
                let sp = split_dots(cs@.take(i + 1));
                assert(sp == prev.push(Seq::<char>::empty()));
                assert(sp[done - 1] == old_cur);
                assert forall|j: int| 0 <= j < done - 1 implies #[trigger] sp[j] == prev[j] by {}
                if all_ok {
                    assert forall|j: int| 0 <= j < done implies valid_version_part(
                        #[trigger] sp[j],
                    ) by {
                        if j < done - 1 {
                            assert(sp[j] == prev[j]);
                        }
                    }
                } else {
                    if !old_ok {
                        let j = choose|j: int| 0 <= j < done - 1 && !valid_version_part(prev[j]);
                        assert(sp[j] == prev[j]);
                    } else {
                        assert(!valid_version_part(sp[done - 1]));
                    }
                }
                assert(cur@ =~= sp.last());
            }
        } else {
            cur.push(c);
            proof {
                let sp = split_dots(cs@.take(i + 1));
                assert(sp == prev.update(prev.len() - 1, prev.last().push(c)));
                assert forall|j: int| 0 <= j < done implies #[trigger] sp[j] == prev[j] by {}
                assert(cur@ =~= sp.last());
                if !all_ok {
                    let j = choose|j: int| 0 <= j < done && !valid_version_part(prev[j]);
                    assert(sp[j] == prev[j]);
                }
            }
        }
        i = i + 1;
    }
    proof {
        assert(cs@.take(n as int) =~= cs@);
    }
    let last_ok = check_version_part(&cur);
    if done == 2 && all_ok && last_ok {
        proof {
            let sp = split_dots(version@);
            assert forall|j: int| 0 <= j < 3 implies valid_version_part(#[trigger] sp[j]) by {
                if j == 2 {
                    assert(sp[j] == cur@);
                }
            }
        }
        Ok(String::from_str(version))
    } else {
        proof {
            let sp = split_dots(version@);
            if sp.len() == 3 {
                if !all_ok {
                    let j = choose|j: int| 0 <= j < done && !valid_version_part(sp[j]);
                    assert(!valid_version_part(sp[j]));
                } else {
                    assert(!valid_version_part(sp[2]));
                }
            }
        }
        Err("Release version must be a stable major.minor.patch version")
    }
}

/// A stable version component: one or more ASCII digits, without a leading
/// zero unless it is `0` itself, whose value fits in a `u64`.
pub open spec fn stable_component(p: Seq<char>) -> bool {
    &&& p.len() > 0
    &&& forall|i: int| 0 <= i < p.len() ==> '0' <= #[trigger] p[i] <= '9'
    &&& (p.len() > 1 ==> p[0] != '0')
    &&& digits_value(p) <= u64::MAX
}

/// No `.` in `t`.
pub open spec fn dotless(t: Seq<char>) -> bool {
    forall|i: int| 0 <= i < t.len() ==> #[trigger] t[i] != '.'
}

proof fn lemma_split_append_dotless(s: Seq<char>, t: Seq<char>)
    requires
        dotless(t),
    ensures
        split_dots(s + t) == split_dots(s).update(
            split_dots(s).len() - 1,
            split_dots(s).last() + t,
        ),
    decreases t.len(),
{
    lemma_split_dots_nonempty(s);
    if t.len() == 0 {
        assert(s + t =~= s);
        assert(split_dots(s).last() + t =~= split_dots(s).last());
        assert(split_dots(s).update(split_dots(s).len() - 1, split_dots(s).last()) =~= split_dots(s));
    } else {
        let t2 = t.drop_last();
        assert(dotless(t2));
        lemma_split_append_dotless(s, t2);
        assert((s + t).drop_last() =~= s + t2);
        assert((s + t).last() == t.last());
        assert(t.last() != '.');
        let p = split_dots(s);
        let q = split_dots(s + t2);
        assert(q.last() == p.last() + t2);
        assert((p.last() + t2).push(t.last()) =~= p.last() + t);
        assert(q.update(q.len() - 1, q.last().push(t.last())) =~= p.update(p.len() - 1, p.last() + t));
    }
}

proof fn lemma_split_append_dot(s: Seq<char>)
    ensures
        split_dots(s.push('.')) == split_dots(s).push(Seq::<char>::empty()),
{
    assert(s.push('.').drop_last() =~= s);
}

proof fn lemma_split_join3(a: Seq<char>, b: Seq<char>, c: Seq<char>)
    requires
        dotless(a),
        dotless(b),
        dotless(c),
    ensures
        split_dots(a + seq!['.'] + b + seq!['.'] + c) == seq![a, b, c],
{
    let e = Seq::<char>::empty();
    lemma_split_append_dotless(e, a);
    assert(e + a =~= a);
    assert(split_dots(e) == seq![e]);
    assert(seq![e].update(0, e + a) =~= seq![a]);
    lemma_split_append_dot(a);
    assert(a.push('.') =~= a + seq!['.']);
    lemma_split_append_dotless(a + seq!['.'], b);
    assert(seq![a, e].update(1, e + b) =~= seq![a, b]);
    let ab = a + seq!['.'] + b;
    lemma_split_append_dot(ab);
    assert(ab.push('.') =~= ab + seq!['.']);
    lemma_split_append_dotless(ab + seq!['.'], c);
    assert(seq![a, b, e].update(2, e + c) =~= seq![a, b, c]);
}

/// `parts` joined by `.`.
pub open spec fn join_dots(parts: Seq<Seq<char>>) -> Seq<char>
    decreases parts.len(),
{
    if parts.len() <= 1 {
        if parts.len() == 1 { parts[0] } else { Seq::<char>::empty() }
    } else {
        join_dots(parts.drop_last()) + seq!['.'] + parts.last()
    }
}

proof fn lemma_join_push_last(parts: Seq<Seq<char>>, c: char)
    requires
        parts.len() >= 1,
    ensures
        join_dots(parts.update(parts.len() - 1, parts.last().push(c))) == join_dots(parts).push(c),
{
    let u = parts.update(parts.len() - 1, parts.last().push(c));
    if parts.len() == 1 {
        assert(u[0] == parts[0].push(c));
    } else {
        assert(u.drop_last() =~= parts.drop_last());
        assert(join_dots(parts.drop_last()) + seq!['.'] + parts.last().push(c) =~= (join_dots(
            parts.drop_last(),
        ) + seq!['.'] + parts.last()).push(c));
    }
}

proof fn lemma_join_split(s: Seq<char>)
    ensures
        join_dots(split_dots(s)) == s,
    decreases s.len(),
{
    if s.len() > 0 {
        let prev = s.drop_last();
        lemma_join_split(prev);
        lemma_split_dots_nonempty(prev);
        let p = split_dots(prev);
        if s.last() == '.' {
            let q = p.push(Seq::<char>::empty());
            assert(q.drop_last() =~= p);
            assert(join_dots(q) == join_dots(p) + seq!['.'] + Seq::<char>::empty());
            assert(prev + seq!['.'] + Seq::<char>::empty() =~= s);
        } else {
            lemma_join_push_last(p, s.last());
            assert(prev.push(s.last()) =~= s);
        }
    }
}

/// A release version is accepted exactly when it is three stable
/// components joined by dots, such as `1.4.6` or `0.10.0`: nothing before,
/// between or after them, no fourth component, no empty component, no sign,
/// prefix or suffix, and no leading zero.
pub proof fn lemma_release_version_shape(s: Seq<char>)
    ensures
        valid_release_version(s) <==> exists|a: Seq<char>, b: Seq<char>, c: Seq<char>|
            stable_component(a) && stable_component(b) && stable_component(c) && s == a + seq!['.']
                + b + seq!['.'] + c,
{
    let parts = split_dots(s);
    if valid_release_version(s) {
        lemma_join_split(s);
        let a = parts[0];
        let b = parts[1];
        let c = parts[2];
        assert(valid_version_part(parts[0]) && valid_version_part(parts[1]) && valid_version_part(parts[2]));
        assert(parts.drop_last().drop_last() =~= seq![a]);
        assert(parts.drop_last() =~= seq![a, b]);
        assert(join_dots(seq![a]) == a);
        assert(join_dots(seq![a, b]) == a + seq!['.'] + b) by {
            assert(seq![a, b].drop_last() =~= seq![a]);
        }
        assert(s == a + seq!['.'] + b + seq!['.'] + c);
        assert(stable_component(a) && stable_component(b) && stable_component(c));
    }
    if exists|a: Seq<char>, b: Seq<char>, c: Seq<char>|
        stable_component(a) && stable_component(b) && stable_component(c) && s == a + seq!['.'] + b
            + seq!['.'] + c {
        let (a, b, c) = choose|a: Seq<char>, b: Seq<char>, c: Seq<char>|
            stable_component(a) && stable_component(b) && stable_component(c) && s == a + seq!['.']
                + b + seq!['.'] + c;
        assert(dotless(a) && dotless(b) && dotless(c)) by {
            assert forall|i: int| 0 <= i < a.len() implies #[trigger] a[i] != '.' by {
                assert('0' <= a[i] <= '9');
            }
            assert forall|i: int| 0 <= i < b.len() implies #[trigger] b[i] != '.' by {
                assert('0' <= b[i] <= '9');
            }
            assert forall|i: int| 0 <= i < c.len() implies #[trigger] c[i] != '.' by {
                assert('0' <= c[i] <= '9');
            }
        }
        lemma_split_join3(a, b, c);
        assert(split_dots(s) == seq![a, b, c]);
        assert(valid_version_part(a) && valid_version_part(b) && valid_version_part(c));
        assert(split_dots(s)[0] == a && split_dots(s)[1] == b && split_dots(s)[2] == c);
    }
}

} // verus!
