//! A snapshot of the process environment, read once at the edge.

use vstd::prelude::*;

verus! {

/// The value bound to `key` in a list of bindings: the first binding of it.
pub open spec fn env_get(vars: Seq<(Seq<char>, Seq<char>)>, key: Seq<char>) -> Option<Seq<char>>
    decreases vars.len(),
{
    if vars.len() == 0 {
        None
    } else if vars[0].0 == key {
        Some(vars[0].1)
    } else {
        env_get(vars.drop_first(), key)
    }
}

/// Environment variables by name. Each name is bound at most once.
pub struct EnvVars {
    vars: Vec<(String, String)>,
}

impl EnvVars {
    spec fn bindings(&self) -> Seq<(Seq<char>, Seq<char>)> {
        self.vars@.map_values(|p: (String, String)| (p.0@, p.1@))
    }

    pub closed spec fn wf(&self) -> bool {
        forall|i: int, j: int|
            0 <= i < j < self.vars.len() ==> #[trigger] self.vars@[i].0@ != #[trigger] self.vars@[j].0@
    }
}

impl View for EnvVars {
    type V = Map<Seq<char>, Seq<char>>;

    closed spec fn view(&self) -> Map<Seq<char>, Seq<char>> {
        Map::new(
            |k: Seq<char>| env_get(self.bindings(), k) is Some,
            |k: Seq<char>| env_get(self.bindings(), k)->Some_0,
        )
    }
}

proof fn lemma_env_get_skip(s: Seq<(Seq<char>, Seq<char>)>, key: Seq<char>, k: int)
    requires
        0 <= k <= s.len(),
        forall|j: int| 0 <= j < k ==> (#[trigger] s[j]).0 != key,
    ensures
        env_get(s, key) == env_get(s.skip(k), key),
    decreases k,
{
    if k > 0 {
        lemma_env_get_skip(s.drop_first(), key, k - 1);
        assert(s.drop_first().skip(k - 1) =~= s.skip(k));
    } else {
        assert(s.skip(0) =~= s);
    }
}

proof fn lemma_env_get_update(
    s: Seq<(Seq<char>, Seq<char>)>,
    i: int,
    p: (Seq<char>, Seq<char>),
    key: Seq<char>,
)
    requires
        0 <= i < s.len(),
        s[i].0 == p.0,
        p.0 != key,
    ensures
        env_get(s.update(i, p), key) == env_get(s, key),
    decreases s.len(),
{
    if i > 0 {
        lemma_env_get_update(s.drop_first(), i - 1, p, key);
        assert(s.update(i, p).drop_first() =~= s.drop_first().update(i - 1, p));
    } else {
        assert(s.update(i, p).drop_first() =~= s.drop_first());
    }
}

proof fn lemma_env_get_push(s: Seq<(Seq<char>, Seq<char>)>, p: (Seq<char>, Seq<char>), key: Seq<char>)
    ensures
        env_get(s.push(p), key) == (if env_get(s, key) is Some {
            env_get(s, key)
        } else if p.0 == key {
            Some(p.1)
        } else {
            None
        }),
    decreases s.len(),
{
    if s.len() > 0 {
        lemma_env_get_push(s.drop_first(), p, key);
        assert(s.push(p).drop_first() =~= s.drop_first().push(p));
    } else {
        assert(s.push(p).drop_first() =~= s);
    }
}

impl EnvVars {
    /// An environment with no variables.
    pub fn new() -> (res: Self)
        ensures
            res.wf(),
            res@ == Map::<Seq<char>, Seq<char>>::empty(),
    {
        let res = EnvVars { vars: Vec::new() };
        assert(res@ =~= Map::<Seq<char>, Seq<char>>::empty());
        res
    }

    /// The value of `key`, if it is set (what `std::env::var` reads).
    pub fn var(&self, key: &str) -> (res: Option<String>)
        requires
            self.wf(),
        ensures
            res is Some <==> self@.contains_key(key@),
            res matches Some(v) ==> self@[key@] == v@,
    {
        let k = String::from_str(key);
        let ghost s = self.bindings();
        let mut i: usize = 0;
        while i < self.vars.len()
            invariant
                i <= self.vars.len(),
                s == self.bindings(),
                k@ == key@,
                forall|j: int| 0 <= j < i ==> (#[trigger] s[j]).0 != key@,
            decreases self.vars.len() - i,
        {
            if self.vars[i].0 == k {
                proof {
                    lemma_env_get_skip(s, key@, i as int);
                    assert(s.skip(i as int)[0] == s[i as int]);
                }
                return Some(self.vars[i].1.clone());
            }
            i += 1;
        }
        proof {
            lemma_env_get_skip(s, key@, i as int);
        }
        None
    }

    /// Binds `key` to `value`, replacing an earlier binding of `key`.
    pub fn set(&mut self, key: String, value: String)
        requires
            old(self).wf(),
        ensures
            final(self).wf(),
            final(self)@ == old(self)@.insert(key@, value@),
    {
        let ghost s = self.bindings();
        let mut i: usize = 0;
        while i < self.vars.len()
            invariant
                i <= self.vars.len(),
                s == self.bindings(),
                self.wf(),
                self.vars@ == old(self).vars@,
                forall|j: int| 0 <= j < i ==> (#[trigger] s[j]).0 != key@,
            decreases self.vars.len() - i,
        {
            if self.vars[i].0 == key {
                let ghost p = (key@, value@);
                let ghost old_vars = self.vars@;
                self.vars.set(i, (key, value));
                proof {
                    assert(self.bindings() =~= s.update(i as int, p));
                    assert forall|a: int, b: int|
                        0 <= a < b < self.vars.len() implies #[trigger] self.vars@[a].0@
                        != #[trigger] self.vars@[b].0@ by {
                        assert(old_vars[a].0@ != old_vars[b].0@);
                        assert(old_vars[i as int].0@ == key@);
                    }
                    assert forall|j: int| 0 <= j < i implies (#[trigger] s.update(i as int, p)[j]).0
                        != key@ by {
                        assert(s.update(i as int, p)[j] == s[j]);
                    }
                    assert forall|k2: Seq<char>| k2 != key@ implies env_get(self.bindings(), k2)
                        == env_get(s, k2) by {
                        lemma_env_get_update(s, i as int, p, k2);
                    }
                    lemma_env_get_skip(s.update(i as int, p), key@, i as int);
                    assert(s.update(i as int, p).skip(i as int)[0] == p);
                    assert(env_get(s.update(i as int, p).skip(i as int), key@) == Some(p.1));
                    assert(env_get(self.bindings(), key@) == Some(p.1));
                    assert forall|k2: Seq<char>| #[trigger] self@.contains_key(k2) == old(self)@.insert(
                        p.0,
                        p.1,
                    ).contains_key(k2) && (self@.contains_key(k2) ==> self@[k2] == old(self)@.insert(
                        p.0,
                        p.1,
                    )[k2]) by {
                        if k2 != key@ {
                            lemma_env_get_update(s, i as int, p, k2);
                        }
                    }
                    assert(self@ =~= old(self)@.insert(p.0, p.1));
                }
                return;
            }
            i += 1;
        }
        let ghost p = (key@, value@);
        proof {
            lemma_env_get_skip(s, key@, i as int);
        }
        let ghost old_vars = self.vars@;
        self.vars.push((key, value));
        proof {
            assert(self.bindings() =~= s.push(p));
            assert forall|a: int, b: int|
                0 <= a < b < self.vars.len() implies #[trigger] self.vars@[a].0@
                != #[trigger] self.vars@[b].0@ by {
                if b == old_vars.len() {
                    assert(s[a].0 != key@);
                } else {
                    assert(old_vars[a].0@ != old_vars[b].0@);
                }
            }
            assert forall|k2: Seq<char>| true implies env_get(self.bindings(), k2) == (if k2
                == p.0 {
                Some(p.1)
            } else {
                env_get(s, k2)
            }) by {
                lemma_env_get_push(s, p, k2);
            }
            assert(self@ =~= old(self)@.insert(p.0, p.1));
        }
    }
}

} // verus!
