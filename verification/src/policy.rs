//! URL policies backed by blocklists, the assembly of blocklist text from its
//! sources, and the runtime configuration that names those sources.

use vstd::prelude::*;
use crate::blocklist::{lemma_rules_of_joined_text, url_parts, verdict, rules_of_text, Blocklist};
use crate::text::{chars_of, join, join_chars, opt_chars, string_of, views};

verus! {

/// A rule deciding which addresses may be opened.
pub trait UrlPolicy {
    fn allows(&self, url: &str) -> bool;
}

/// A URL policy that allows every address its blocklist does not block.
#[derive(Clone)]
pub struct FileBlocklistPolicy {
    blocklist: Blocklist,
}

impl View for FileBlocklistPolicy {
    type V = Seq<Seq<char>>;

    closed spec fn view(&self) -> Seq<Seq<char>> {
        self.blocklist@
    }
}

impl FileBlocklistPolicy {
    /// The policy of the rules in a blocklist text.
    pub fn from_blocklist_text(content: &str) -> (r: Self)
        ensures
            r@ == rules_of_text(content@),
    {
        FileBlocklistPolicy { blocklist: Blocklist::from_text(content) }
    }
}

impl UrlPolicy for FileBlocklistPolicy {
    /// Whether `url` may be opened: exactly when the blocklist does not block it.
    fn allows(&self, url: &str) -> (r: bool)
        ensures
            r == !verdict(self@, url_parts(url@)),
    {
        !self.blocklist.blocks(url)
    }
}

/// Where a remote blocklist is fetched from and where its last copy is kept.
#[derive(Clone)]
pub struct RemoteBlocklistConfig {
    pub url: String,
    pub cache_path: String,
}

/// The blocklist text made of `sources`: none is an error, else they are
/// joined by newlines.
pub open spec fn joined_sources(sources: Seq<Seq<char>>) -> Result<Seq<char>, Seq<char>> {
    if sources.len() == 0 {
        Err("No blocklist sources could be loaded."@)
    } else {
        Ok(join(sources, seq!['\n']))
    }
}

/// The blocklist text from what loading each source gave: the local file's text
/// where it exists; the remote fetch's text or error where a remote is
/// configured; and, where the fetch failed, the cached copy's text where one
/// exists. A failed fetch with no cached copy is the result's error only when
/// there is no local text either.
pub open spec fn combined_sources(
    local: Option<Seq<char>>,
    remote: Option<Result<Seq<char>, Seq<char>>>,
    cached: Option<Seq<char>>,
) -> Result<Seq<char>, Seq<char>> {
    let base: Seq<Seq<char>> = match local {
        Some(l) => seq![l],
        None => seq![],
    };
    match remote {
        None => joined_sources(base),
        Some(Ok(fetched)) => joined_sources(base.push(fetched)),
        Some(Err(error)) => match cached {
            Some(c) => joined_sources(base.push(c)),
            None => if base.len() == 0 {
                Err(error)
            } else {
                joined_sources(base)
            },
        },
    }
}

pub open spec fn result_view(r: Result<String, String>) -> Result<Seq<char>, Seq<char>> {
    match r {
        Ok(s) => Ok(s@),
        Err(e) => Err(e@),
    }
}

pub open spec fn remote_view(r: Option<Result<String, String>>) -> Option<Result<Seq<char>, Seq<char>>> {
    match r {
        Some(x) => Some(result_view(x)),
        None => None,
    }
}

fn join_sources(sources: Vec<Vec<char>>) -> (r: Result<String, String>)
    ensures
        result_view(r) == joined_sources(views(sources@)),
{
    if sources.len() == 0 {
        return Err(String::from_str("No blocklist sources could be loaded."));
    }
    let sep: Vec<char> = vec!['\n'];
    assert(sep@ =~= seq!['\n']);
    let joined = join_chars(&sources, sep.as_slice());
    Ok(string_of(joined.as_slice()))
}

/// Assembles the blocklist text from the outcome of loading each source: the
/// local file's text (`None` where the file does not exist), the remote fetch
/// (`None` where no remote is configured) and the remote's cached copy (read
/// only where the fetch failed; `None` where there is none).
pub fn combine_blocklist_sources(
    local: Option<String>,
    remote: Option<Result<String, String>>,
    cached: Option<String>,
) -> (r: Result<String, String>)
    ensures
        result_view(r) == combined_sources(
            opt_chars(local),
            remote_view(remote),
            opt_chars(cached),
        ),
{
    let mut sources: Vec<Vec<char>> = Vec::new();
    let ghost base: Seq<Seq<char>> = match opt_chars(local) {
        Some(l) => seq![l],
        None => seq![],
    };
    match local {
        Some(l) => {
            sources.push(chars_of(l.as_str()));
        },
        None => {},
    }
    assert(views(sources@) =~= base);
    match remote {
        None => {},
        Some(Ok(fetched)) => {
            sources.push(chars_of(fetched.as_str()));
            assert(views(sources@) =~= base.push(fetched@));
        },
        Some(Err(error)) => {
            match cached {
                Some(c) => {
                    sources.push(chars_of(c.as_str()));
                    assert(views(sources@) =~= base.push(c@));
                },
                None => {
                    if sources.len() == 0 {
                        return Err(error);
                    }
                },
            }
        },
    }
    join_sources(sources)
}

/// Where blocklists come from at run time.
pub struct RuntimeConfig {
    pub local_blocklist_path: String,
    pub remote_blocklist_url: Option<String>,
    pub remote_blocklist_cache_path: String,
}

/// The remote source a configuration names, if any.
pub open spec fn remote_of(url: Option<Seq<char>>, cache_path: Seq<char>) -> Option<(Seq<char>, Seq<char>)> {
    match url {
        Some(u) => Some((u, cache_path)),
        None => None,
    }
}

pub open spec fn remote_config_view(o: Option<RemoteBlocklistConfig>) -> Option<(Seq<char>, Seq<char>)> {
    match o {
        Some(c) => Some((c.url@, c.cache_path@)),
        None => None,
    }
}

impl RuntimeConfig {
    /// The configuration from the settings given, with the default local path
    /// `blocklist.txt` and cache path `target/blocklists/remote-domains.txt`
    /// where they are absent.
    pub fn from_values(
        local_blocklist_path: Option<String>,
        remote_blocklist_url: Option<String>,
        remote_blocklist_cache_path: Option<String>,
    ) -> (r: Self)
        ensures
            r.local_blocklist_path@ == match local_blocklist_path {
                Some(p) => p@,
                None => "blocklist.txt"@,
            },
            opt_chars(r.remote_blocklist_url) == opt_chars(remote_blocklist_url),
            r.remote_blocklist_cache_path@ == match remote_blocklist_cache_path {
                Some(p) => p@,
                None => "target/blocklists/remote-domains.txt"@,
            },
    {
        RuntimeConfig {
            local_blocklist_path: match local_blocklist_path {
                Some(p) => p,
                None => String::from_str("blocklist.txt"),
            },
            remote_blocklist_url,
            remote_blocklist_cache_path: match remote_blocklist_cache_path {
                Some(p) => p,
                None => String::from_str("target/blocklists/remote-domains.txt"),
            },
        }
    }

    /// The remote blocklist source, where a remote URL is configured.
    pub fn remote_config(&self) -> (r: Option<RemoteBlocklistConfig>)
        ensures
            remote_config_view(r) == remote_of(
                opt_chars(self.remote_blocklist_url),
                self.remote_blocklist_cache_path@,
            ),
    {
        match &self.remote_blocklist_url {
            Some(url) => Some(
                RemoteBlocklistConfig {
                    url: url.clone(),
                    cache_path: self.remote_blocklist_cache_path.clone(),
                },
            ),
            None => None,
        }
    }
}

/// The rules of each source text, one source after another.
pub open spec fn rules_of_sources(sources: Seq<Seq<char>>) -> Seq<Seq<char>>
    decreases sources.len(),
{
    if sources.len() == 0 {
        seq![]
    } else {
        rules_of_sources(sources.drop_last()) + rules_of_text(sources.last())
    }
}

/// Joining blocklist sources with newlines keeps every source's rules, in
/// source order: the joined text has exactly the rules of each source, one
/// source after another.
pub proof fn lemma_joined_sources_keep_rules(sources: Seq<Seq<char>>)
    ensures
        rules_of_text(join(sources, seq!['\n'])) == rules_of_sources(sources),
    decreases sources.len(),
{
    if sources.len() == 0 {
        assert(rules_of_text(Seq::<char>::empty()) =~= Seq::<Seq<char>>::empty()) by {
            assert(crate::text::lines(Seq::<char>::empty()) =~= Seq::<Seq<char>>::empty());
        }
    } else if sources.len() == 1 {
        assert(sources.drop_last().len() == 0);
        assert(rules_of_text(Seq::<char>::empty()) =~= Seq::<Seq<char>>::empty()) by {
            assert(crate::text::lines(Seq::<char>::empty()) =~= Seq::<Seq<char>>::empty());
        }
        assert(rules_of_sources(sources.drop_last()) =~= Seq::<Seq<char>>::empty());
        assert(sources.last() == sources[0]);
        assert(rules_of_sources(sources) =~= rules_of_text(sources[0]));
    } else {
        lemma_joined_sources_keep_rules(sources.drop_last());
        lemma_rules_of_joined_text(join(sources.drop_last(), seq!['\n']), sources.last());
    }
}

/// What the blocklist text is made of, case by case: a fetched remote text,
/// or where the fetch failed a cached copy, comes after the local text (alone
/// where there is none); a failed fetch with no cached copy leaves the local
/// text, and with no local text either it is the error; with no remote, the
/// local text, else the error that nothing could be loaded.
pub proof fn lemma_combined_sources_cases(
    local: Option<Seq<char>>,
    remote: Option<Result<Seq<char>, Seq<char>>>,
    cached: Option<Seq<char>>,
)
    ensures
        remote matches Some(Ok(f)) ==> combined_sources(local, remote, cached) == Ok::<Seq<char>, Seq<char>>(
            match local {
                Some(l) => l + seq!['\n'] + f,
                None => f,
            },
        ),
        remote matches Some(Err(e)) ==> combined_sources(local, remote, cached) == match cached {
            Some(c) => Ok::<Seq<char>, Seq<char>>(
                match local {
                    Some(l) => l + seq!['\n'] + c,
                    None => c,
                },
            ),
            None => match local {
                Some(l) => Ok(l),
                None => Err(e),
            },
        },
        remote is None ==> combined_sources(local, remote, cached) == match local {
            Some(l) => Ok(l),
            None => Err("No blocklist sources could be loaded."@),
        },
{
    let base: Seq<Seq<char>> = match local {
        Some(l) => seq![l],
        None => seq![],
    };
    let extra: Option<Seq<char>> = match remote {
        Some(Ok(f)) => Some(f),
        Some(Err(e)) => cached,
        None => None,
    };
    if let Some(x) = extra {
        let all = base.push(x);
        assert(all.last() == x);
        if let Some(l) = local {
            assert(all.drop_last() =~= seq![l]);
            assert(join(seq![l], seq!['\n']) == l);
        } else {
            assert(all =~= seq![x]);
        }
    }
    if let Some(l) = local {
        assert(join(seq![l], seq!['\n']) == l);
    }
}

} // verus!
