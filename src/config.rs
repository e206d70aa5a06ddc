use vstd::prelude::*;
use vstd::string::*;

use crate::error::{ErrorKind, GmlError};

verus! {

/// Credentials of one provider, as the configuration file gives them.
#[derive(Debug, PartialEq, Eq)]
pub struct ProviderConfig {
    pub api_key: Option<String>,
    pub ssh_key: Option<String>,
    pub region: Option<String>,
}

/// One provider's configuration under its name.
#[derive(Debug, PartialEq, Eq)]
pub struct NamedProvider {
    pub name: String,
    pub config: ProviderConfig,
}

/// The configuration of every provider, keyed by provider name.
#[derive(Debug, PartialEq, Eq)]
pub struct Config {
    pub providers: Vec<NamedProvider>,
}

impl ProviderConfig {
    pub fn duplicate(&self) -> (r: ProviderConfig)
        ensures
            r == *self,
    {
        ProviderConfig {
            api_key: match &self.api_key {
                Some(s) => Some(s.clone()),
                None => None,
            },
            ssh_key: match &self.ssh_key {
                Some(s) => Some(s.clone()),
                None => None,
            },
            region: match &self.region {
                Some(s) => Some(s.clone()),
                None => None,
            },
        }
    }
}

pub open spec fn provider_names_unique(ps: Seq<NamedProvider>) -> bool {
    forall|i: int, j: int|
        0 <= i < ps.len() && 0 <= j < ps.len() && #[trigger] ps[i].name@ == #[trigger] ps[j].name@
            ==> i == j
}

pub open spec fn has_provider(ps: Seq<NamedProvider>, name: Seq<char>) -> bool {
    exists|i: int| 0 <= i < ps.len() && #[trigger] ps[i].name@ == name
}

/// The configuration stored under `name`, if any.
pub open spec fn provider_lookup(ps: Seq<NamedProvider>, name: Seq<char>) -> Option<ProviderConfig> {
    if has_provider(ps, name) {
        Some(ps[choose|i: int| 0 <= i < ps.len() && #[trigger] ps[i].name@ == name].config)
    } else {
        None
    }
}

proof fn lemma_provider_found(ps: Seq<NamedProvider>, name: Seq<char>, i: int)
    requires
        provider_names_unique(ps),
        0 <= i < ps.len(),
        ps[i].name@ == name,
    ensures
        provider_lookup(ps, name) == Some(ps[i].config),
{
    let k = choose|k: int| 0 <= k < ps.len() && #[trigger] ps[k].name@ == name;
    assert(ps[k].name@ == ps[i].name@);
}

fn find_provider(ps: &Vec<NamedProvider>, name: &str) -> (r: Option<usize>)
    ensures
        match r {
            Some(i) => i < ps@.len() && ps@[i as int].name@ == name@,
            None => !has_provider(ps@, name@),
        },
{
    let key = String::from_str(name);
    let mut i: usize = 0;
    while i < ps.len()
        invariant
            key@ == name@,
            i <= ps@.len(),
            forall|j: int| 0 <= j < i ==> #[trigger] ps@[j].name@ != name@,
        decreases ps@.len() - i,
    {
        if ps[i].name == key {
            return Some(i);
        }
        i = i + 1;
    }
    None
}

impl Config {
    /// No provider name appears twice.
    pub open spec fn wf(&self) -> bool {
        provider_names_unique(self.providers@)
    }

    pub open spec fn lookup(&self, name: Seq<char>) -> Option<ProviderConfig> {
        provider_lookup(self.providers@, name)
    }

    /// A configuration naming no provider.
    pub fn new() -> (r: Config)
        ensures
            r.wf(),
            r.providers@.len() == 0,
    {
        Config { providers: Vec::new() }
    }

    /// Stores `config` under `name`, replacing what was stored there.
    pub fn insert(&mut self, name: String, config: ProviderConfig)
        requires
            old(self).wf(),
        ensures
            final(self).wf(),
            final(self).lookup(name@) == Some(config),
            forall|n: Seq<char>| n != name@ ==> #[trigger] final(self).lookup(n) == old(self).lookup(n),
    {
        let ghost before = self.providers@;
        match find_provider(&self.providers, name.as_str()) {
            Some(i) => {
                let ghost nm = name@;
                self.providers.set(i, NamedProvider { name, config });
                assert forall|a: int, b: int|
                    0 <= a < self.providers@.len() && 0 <= b < self.providers@.len()
                        && #[trigger] self.providers@[a].name@ == #[trigger] self.providers@[b].name@ implies a
                    == b by {
                    assert(before[a].name@ == before[b].name@);
                }
                proof {
                    lemma_provider_found(self.providers@, nm, i as int);
                    assert forall|n: Seq<char>| n != nm implies #[trigger] provider_lookup(
                        self.providers@,
                        n,
                    ) == provider_lookup(before, n) by {
                        if has_provider(before, n) {
                            let k = choose|k: int| 0 <= k < before.len() && #[trigger] before[k].name@ == n;
                            lemma_provider_found(before, n, k);
                            lemma_provider_found(self.providers@, n, k);
                        } else {
                            assert forall|k: int| 0 <= k < self.providers@.len() implies #[trigger] self.providers@[k].name@ != n by {
                                if k != i {
                                    assert(before[k].name@ != n);
                                }
                            }
                        }
                    }
                }
            },
            None => {
                let ghost nm = name@;
                self.providers.push(NamedProvider { name, config });
                let ghost last = before.len() as int;
                assert forall|a: int, b: int|
                    0 <= a < self.providers@.len() && 0 <= b < self.providers@.len()
                        && #[trigger] self.providers@[a].name@ == #[trigger] self.providers@[b].name@ implies a
                    == b by {
                    if a < last && b < last {
                        assert(before[a].name@ == before[b].name@);
                    } else if a < last {
                        assert(before[a].name@ == nm);
                    } else if b < last {
                        assert(before[b].name@ == nm);
                    }
                }
                proof {
                    lemma_provider_found(self.providers@, nm, last);
                    assert forall|n: Seq<char>| n != nm implies #[trigger] provider_lookup(
                        self.providers@,
                        n,
                    ) == provider_lookup(before, n) by {
                        if has_provider(before, n) {
                            let k = choose|k: int| 0 <= k < before.len() && #[trigger] before[k].name@ == n;
                            lemma_provider_found(before, n, k);
                            lemma_provider_found(self.providers@, n, k);
                        } else {
                            assert forall|k: int| 0 <= k < self.providers@.len() implies #[trigger] self.providers@[k].name@ != n by {
                                if k < last {
                                    assert(before[k].name@ != n);
                                }
                            }
                        }
                    }
                }
            },
        }
    }

    /// The configuration of the provider called `name`, if any.
    pub fn get_provider(&self, name: &str) -> (r: Option<&ProviderConfig>)
        requires
            self.wf(),
        ensures
            match r {
                Some(c) => self.lookup(name@) == Some(*c),
                None => self.lookup(name@).is_none(),
            },
    {
        match find_provider(&self.providers, name) {
            Some(i) => {
                proof {
                    lemma_provider_found(self.providers@, name@, i as int);
                }
                Some(&self.providers[i].config)
            },
            None => None,
        }
    }

    /// The names of all configured providers.
    pub fn provider_names(&self) -> (r: Vec<String>)
        ensures
            r@.len() == self.providers@.len(),
            forall|i: int| 0 <= i < r@.len() ==> #[trigger] r@[i] == self.providers@[i].name,
    {
        let mut out: Vec<String> = Vec::new();
        let mut i: usize = 0;
        while i < self.providers.len()
            invariant
                i <= self.providers@.len(),
                out@.len() == i,
                forall|j: int| 0 <= j < i ==> #[trigger] out@[j] == self.providers@[j].name,
            decreases self.providers@.len() - i,
        {
            out.push(self.providers[i].name.clone());
            i = i + 1;
        }
        out
    }
}

/// The configuration of `provider`; fails with `Config` when the provider is
/// not configured.
pub fn parse_config_for_provider(config: &Config, provider: &str) -> (r: Result<ProviderConfig, GmlError>)
    requires
        config.wf(),
    ensures
        match r {
            Ok(c) => config.lookup(provider@) == Some(c),
            Err(e) => config.lookup(provider@).is_none() && e.kind == ErrorKind::Config,
        },
{
    match config.get_provider(provider) {
        Some(c) => Ok(c.duplicate()),
        None => Err(GmlError::about(ErrorKind::Config, "provider not found in config: ", provider)),
    }
}

} // verus!
