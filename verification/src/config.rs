//! The proxy's configuration: which hosts it serves, where each is proxied
//! to, and where the TLS certificate and key live; and the order in which
//! the configuration file is looked for.
use crate::strmap::StrMap;
use vstd::prelude::*;

verus! {

/// Where requests for a host are forwarded: `target` is the upstream address.
#[derive(Debug, Clone)]
pub struct ProxyConfig {
    pub target: String,
}

/// What the server does for one host.
#[derive(Debug)]
pub struct DomainConfig {
    pub proxy: Option<ProxyConfig>,
}

/// Static files served for a host: the root directory and an optional path.
#[derive(Debug)]
pub struct ServeConfig {
    pub root: String,
    pub path: Option<String>,
}

/// Paths of the PEM files holding the server certificate chain and its key.
#[derive(Debug)]
pub struct TlsConfig {
    pub cert: String,
    pub key: String,
}

/// The whole configuration: the hosts by name, and the TLS files if any.
#[derive(Debug)]
pub struct Config {
    pub domains: StrMap<DomainConfig>,
    pub tls: Option<TlsConfig>,
}

impl Config {
    /// Replaces the configuration by a newly read one.
    pub fn reload(&mut self, config: Self)
        ensures
            *final(self) == config,
    {
        *self = config;
    }
}

/// The places where the configuration file is looked for, first to last.
pub open spec fn config_locations() -> Seq<Seq<char>> {
    seq!["../config.json"@, "./config.json"@]
}

/// What to do next while looking for the configuration file.
#[derive(Debug)]
pub enum SearchStep {
    /// Try to open this file.
    Try(String),
    /// The file just tried opened: read the configuration from it.
    UseOpened,
    /// Every location has been tried and none opened.
    NotFound,
}

pub enum SearchStepView {
    Try(Seq<char>),
    UseOpened,
    NotFound,
}

impl View for SearchStep {
    type V = SearchStepView;

    open spec fn view(&self) -> SearchStepView {
        match self {
            SearchStep::Try(p) => SearchStepView::Try(p@),
            SearchStep::UseOpened => SearchStepView::UseOpened,
            SearchStep::NotFound => SearchStepView::NotFound,
        }
    }
}

/// The configuration files still to be tried, in the order they are tried.
pub struct ConfigSearch {
    remaining: Vec<String>,
}

impl View for ConfigSearch {
    type V = Seq<Seq<char>>;

    closed spec fn view(&self) -> Seq<Seq<char>> {
        self.remaining@.map_values(|p: String| p@)
    }
}

impl ConfigSearch {
    /// A search that has tried nothing yet.
    pub fn new() -> (s: Self)
        ensures
            s@ == config_locations(),
    {
        let mut remaining: Vec<String> = Vec::new();
        remaining.push(String::from_str("../config.json"));
        remaining.push(String::from_str("./config.json"));
        let s = ConfigSearch { remaining };
        assert(s@ =~= config_locations());
        s
    }

    /// The next file to try, or `None` once every location has been tried.
    pub fn next_path(&mut self) -> (p: Option<String>)
        ensures
            old(self)@.len() == 0 ==> p is None && final(self)@ == old(self)@,
            old(self)@.len() > 0 ==> final(self)@ == old(self)@.drop_first(),
            old(self)@.len() > 0 ==> (p matches Some(path) && path@ == old(self)@[0]),
    {
        if self.remaining.len() == 0 {
            None
        } else {
            let ghost before = self.remaining@;
            let path = self.remaining.remove(0);
            assert(self@ =~= before.map_values(|p: String| p@).drop_first());
            Some(path)
        }
    }

    /// The next step of the search, given whether the file tried last could
    /// be opened (`false` before any file was tried): stop at the first file
    /// that opens, otherwise try the next location, and report that the
    /// configuration is not found once every location has failed.
    pub fn next_step(&mut self, opened: bool) -> (s: SearchStep)
        ensures
            opened ==> s@ == SearchStepView::UseOpened && final(self)@ == old(self)@,
            !opened && old(self)@.len() == 0 ==> s@ == SearchStepView::NotFound && final(self)@
                == old(self)@,
            !opened && old(self)@.len() > 0 ==> s@ == SearchStepView::Try(old(self)@[0])
                && final(self)@ == old(self)@.drop_first(),
    {
        if opened {
            return SearchStep::UseOpened;
        }
        match self.next_path() {
            Some(path) => SearchStep::Try(path),
            None => SearchStep::NotFound,
        }
    }
}

} // verus!
