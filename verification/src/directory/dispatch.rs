//! The directory front end: one handle over the configured backend,
//! with a cache of what the backend said of domains and recipients.

use vstd::prelude::*;
use vstd::string::StringExecFns;
use crate::compare::{Structured, views, option_view, duplicate_items, lemma_views_push};
use crate::directory::memory::{MemoryDirectory, MemoryDirectoryView, QueryOutcome,
    QueryOutcomeView, QueryParams, RcptType, expanded, verified};
use crate::text::same_text;

verus! {

/// The backend a directory is configured with. Only the directory in
/// memory is kept here; the others are reached over the network.
pub enum DirectoryInner {
    Internal,
    Ldap,
    Sql,
    Imap,
    Smtp,
    Memory(MemoryDirectory),
    OpenId,
}

/// The backends that are asked over the network.
#[derive(Clone, Copy, Debug, PartialEq, Eq, Structural)]
pub enum Backend {
    Internal,
    Ldap,
    Sql,
    Imap,
    Smtp,
    OpenId,
}

/// What the directory says of a lookup: the answer, or which backend is
/// to be asked for it.
pub enum Lookup<T> {
    Known(T),
    Ask(Backend),
}

pub enum RcptTypeView {
    Mailbox,
    List(Seq<Seq<char>>),
    Invalid,
}

impl View for RcptType {
    type V = RcptTypeView;

    open spec fn view(&self) -> RcptTypeView {
        match self {
            RcptType::Mailbox => RcptTypeView::Mailbox,
            RcptType::List(members) => RcptTypeView::List(views(members@)),
            RcptType::Invalid => RcptTypeView::Invalid,
        }
    }
}

impl Structured for RcptType {
    fn same_as(&self, other: &Self) -> (same: bool) {
        match (self, other) {
            (RcptType::Mailbox, RcptType::Mailbox) => true,
            (RcptType::Invalid, RcptType::Invalid) => true,
            (RcptType::List(a), RcptType::List(b)) => crate::compare::same_items(a, b),
            _ => false,
        }
    }

    fn duplicate(&self) -> (copy: Self) {
        match self {
            RcptType::Mailbox => RcptType::Mailbox,
            RcptType::List(members) => RcptType::List(duplicate_items(members)),
            RcptType::Invalid => RcptType::Invalid,
        }
    }
}

/// What was said of a domain.
pub struct CachedDomain {
    pub domain: String,
    pub local: bool,
}

/// What was said of a recipient.
pub struct CachedRcpt {
    pub email: String,
    pub rcpt: RcptType,
}

/// What the backend said of domains and recipients, oldest first.
pub struct DirectoryCache {
    pub domains: Vec<CachedDomain>,
    pub rcpts: Vec<CachedRcpt>,
}

pub struct CachedDomainView {
    pub domain: Seq<char>,
    pub local: bool,
}

pub struct CachedRcptView {
    pub email: Seq<char>,
    pub rcpt: RcptTypeView,
}

impl View for CachedDomain {
    type V = CachedDomainView;

    open spec fn view(&self) -> CachedDomainView {
        CachedDomainView { domain: self.domain@, local: self.local }
    }
}

impl View for CachedRcpt {
    type V = CachedRcptView;

    open spec fn view(&self) -> CachedRcptView {
        CachedRcptView { email: self.email@, rcpt: self.rcpt@ }
    }
}

pub struct DirectoryCacheView {
    pub domains: Seq<CachedDomainView>,
    pub rcpts: Seq<CachedRcptView>,
}

impl View for DirectoryCache {
    type V = DirectoryCacheView;

    open spec fn view(&self) -> DirectoryCacheView {
        DirectoryCacheView { domains: views(self.domains@), rcpts: views(self.rcpts@) }
    }
}

/// What was last said of a domain.
pub open spec fn cached_domain(entries: Seq<CachedDomainView>, domain: Seq<char>) -> Option<bool>
    decreases entries.len(),
{
    if entries.len() == 0 {
        None
    } else if entries.last().domain == domain {
        Some(entries.last().local)
    } else {
        cached_domain(entries.drop_last(), domain)
    }
}

/// What was last said of a recipient.
pub open spec fn cached_rcpt(entries: Seq<CachedRcptView>, email: Seq<char>) -> Option<
    RcptTypeView,
>
    decreases entries.len(),
{
    if entries.len() == 0 {
        None
    } else if entries.last().email == email {
        Some(entries.last().rcpt)
    } else {
        cached_rcpt(entries.drop_last(), email)
    }
}

impl DirectoryCache {
    /// A cache that holds nothing.
    pub fn new() -> (cache: DirectoryCache)
        ensures
            cache@.domains.len() == 0,
            cache@.rcpts.len() == 0,
    {
        DirectoryCache { domains: Vec::new(), rcpts: Vec::new() }
    }

    /// What was last said of a domain.
    pub fn get_domain(&self, domain: &str) -> (local: Option<bool>)
        ensures
            local == cached_domain(self@.domains, domain@),
    {
        let ghost all = views(self.domains@);
        let mut i: usize = self.domains.len();
        assert(all.take(i as int) =~= all);
        while i > 0
            invariant
                i <= self.domains.len(),
                all == views(self.domains@),
                cached_domain(all, domain@) == cached_domain(all.take(i as int), domain@),
            decreases i,
        {
            proof {
                assert(all.take(i as int).drop_last() =~= all.take(i - 1));
                assert(all.take(i as int).last() == self.domains@[i - 1]@);
            }
            i -= 1;
            if same_text(self.domains[i].domain.as_str(), domain) {
                return Some(self.domains[i].local);
            }
        }
        None
    }

    /// Keeps what was said of a domain.
    pub fn set_domain(&mut self, domain: &str, local: bool)
        ensures
            final(self)@ == (DirectoryCacheView {
                domains: old(self)@.domains.push(CachedDomainView { domain: domain@, local }),
                ..old(self)@
            }),
            cached_domain(final(self)@.domains, domain@) == Some(local),
    {
        let entry = CachedDomain { domain: String::from_str(domain), local };
        proof {
            lemma_views_push(self.domains@, entry);
        }
        self.domains.push(entry);
    }

    /// What was last said of a recipient.
    pub fn get_rcpt(&self, email: &str) -> (rcpt: Option<RcptType>)
        ensures
            option_view(rcpt) == cached_rcpt(self@.rcpts, email@),
    {
        let ghost all = views(self.rcpts@);
        let mut i: usize = self.rcpts.len();
        assert(all.take(i as int) =~= all);
        while i > 0
            invariant
                i <= self.rcpts.len(),
                all == views(self.rcpts@),
                cached_rcpt(all, email@) == cached_rcpt(all.take(i as int), email@),
            decreases i,
        {
            proof {
                assert(all.take(i as int).drop_last() =~= all.take(i - 1));
                assert(all.take(i as int).last() == self.rcpts@[i - 1]@);
            }
            i -= 1;
            if same_text(self.rcpts[i].email.as_str(), email) {
                return Some(self.rcpts[i].rcpt.duplicate());
            }
        }
        None
    }

    /// Keeps what was said of a recipient.
    pub fn set_rcpt(&mut self, email: &str, rcpt: &RcptType)
        ensures
            final(self)@ == (DirectoryCacheView {
                rcpts: old(self)@.rcpts.push(CachedRcptView { email: email@, rcpt: rcpt@ }),
                ..old(self)@
            }),
            cached_rcpt(final(self)@.rcpts, email@) == Some(rcpt@),
    {
        let entry = CachedRcpt {
            email: String::from_str(email),
            rcpt: rcpt.duplicate(),
        };
        proof {
            lemma_views_push(self.rcpts@, entry);
        }
        self.rcpts.push(entry);
    }
}

/// A directory: the backend that answers its queries, and the cache in
/// front of it, if there is one.
pub struct Directory {
    pub store: DirectoryInner,
    pub cache: Option<DirectoryCache>,
}

impl DirectoryInner {
    /// The directory in memory, if that is the backend.
    pub open spec fn memory(self) -> Option<MemoryDirectory> {
        match self {
            DirectoryInner::Memory(store) => Some(store),
            _ => None,
        }
    }

    /// The backend that is asked over the network, if one is.
    pub open spec fn spec_backend(&self) -> Option<Backend> {
        match *self {
            DirectoryInner::Internal => Some(Backend::Internal),
            DirectoryInner::Ldap => Some(Backend::Ldap),
            DirectoryInner::Sql => Some(Backend::Sql),
            DirectoryInner::Imap => Some(Backend::Imap),
            DirectoryInner::Smtp => Some(Backend::Smtp),
            DirectoryInner::OpenId => Some(Backend::OpenId),
            DirectoryInner::Memory(_) => None,
        }
    }

    /// The backend that is asked over the network, if one is.
    #[verifier::when_used_as_spec(spec_backend)]
    pub fn backend(&self) -> (backend: Option<Backend>)
        ensures
            backend == self.spec_backend(),
    {
        match self {
            DirectoryInner::Internal => Some(Backend::Internal),
            DirectoryInner::Ldap => Some(Backend::Ldap),
            DirectoryInner::Sql => Some(Backend::Sql),
            DirectoryInner::Imap => Some(Backend::Imap),
            DirectoryInner::Smtp => Some(Backend::Smtp),
            DirectoryInner::OpenId => Some(Backend::OpenId),
            DirectoryInner::Memory(_) => None,
        }
    }

    /// No backend of this build is an enterprise directory.
    pub fn is_enterprise_directory(&self) -> (enterprise: bool)
        ensures
            !enterprise,
    {
        false
    }
}

impl Directory {
    /// A directory in memory is well formed.
    pub open spec fn wf(self) -> bool {
        self.store matches DirectoryInner::Memory(store) ==> store.wf()
    }

    /// What the cache last said of a domain.
    pub open spec fn known_domain(self, domain: Seq<char>) -> Option<bool> {
        match self.cache {
            Some(cache) => cached_domain(cache@.domains, domain),
            None => None,
        }
    }

    /// What the cache last said of a recipient.
    pub open spec fn known_rcpt(self, email: Seq<char>) -> Option<RcptTypeView> {
        match self.cache {
            Some(cache) => cached_rcpt(cache@.rcpts, email),
            None => None,
        }
    }

    /// Looks a principal up.
    pub fn query(&self, by: &QueryParams) -> (found: Lookup<QueryOutcome>)
        ensures
            match self.store {
                DirectoryInner::Memory(store) => found matches Lookup::Known(outcome) && outcome@
                    == store@.query(by.by),
                _ => found matches Lookup::Ask(backend) && Some(backend)
                    == self.store.spec_backend(),
            },
    {
        match &self.store {
            DirectoryInner::Memory(store) => Lookup::Known(store.query(by)),
            DirectoryInner::Internal => Lookup::Ask(Backend::Internal),
            DirectoryInner::Ldap => Lookup::Ask(Backend::Ldap),
            DirectoryInner::Sql => Lookup::Ask(Backend::Sql),
            DirectoryInner::Imap => Lookup::Ask(Backend::Imap),
            DirectoryInner::Smtp => Lookup::Ask(Backend::Smtp),
            DirectoryInner::OpenId => Lookup::Ask(Backend::OpenId),
        }
    }

    /// The id of the principal that an address leads to.
    pub fn email_to_id(&self, address: &str) -> (found: Lookup<Option<u32>>)
        requires
            self.wf(),
        ensures
            match self.store {
                DirectoryInner::Memory(store) => found matches Lookup::Known(id) && id
                    == store@.email_to_id(address@),
                _ => found matches Lookup::Ask(backend) && Some(backend)
                    == self.store.spec_backend(),
            },
    {
        match &self.store {
            DirectoryInner::Memory(store) => Lookup::Known(store.email_to_id(address)),
            DirectoryInner::Internal => Lookup::Ask(Backend::Internal),
            DirectoryInner::Ldap => Lookup::Ask(Backend::Ldap),
            DirectoryInner::Sql => Lookup::Ask(Backend::Sql),
            DirectoryInner::Imap => Lookup::Ask(Backend::Imap),
            DirectoryInner::Smtp => Lookup::Ask(Backend::Smtp),
            DirectoryInner::OpenId => Lookup::Ask(Backend::OpenId),
        }
    }

    /// Whether a domain is local. The cache answers if it knows; else
    /// the directory in memory answers, and the cache keeps the answer;
    /// else the backend is to be asked, and `remember_domain` to be told
    /// what it said.
    pub fn is_local_domain(&mut self, domain: &str) -> (found: Lookup<bool>)
        requires
            old(self).wf(),
        ensures
            final(self).wf(),
            final(self).store == old(self).store,
            match old(self).known_domain(domain@) {
                Some(local) => found matches Lookup::Known(answer) && answer == local && *final(self) == *old(self),
                None => match old(self).store {
                    DirectoryInner::Memory(store) => found matches Lookup::Known(answer)
                        && answer == store@.has_domain(domain@) && (old(self).cache is Some
                        ==> final(self).known_domain(domain@) == Some(answer)) && (old(self).cache is None ==> final(self).cache is None),
                    _ => found matches Lookup::Ask(backend) && Some(backend) == old(self).store.spec_backend() && *final(self) == *old(self),
                },
            },
    {
        // Check cache
        match &self.cache {
            Some(cache) => match cache.get_domain(domain) {
                Some(local) => {
                    return Lookup::Known(local);
                },
                None => {},
            },
            None => {},
        }
        let result = match &self.store {
            DirectoryInner::Memory(store) => store.is_local_domain(domain),
            other => {
                return match other.backend() {
                    Some(backend) => Lookup::Ask(backend),
                    None => Lookup::Known(false),
                };
            },
        };
        // Update cache
        self.remember_domain(domain, result);
        Lookup::Known(result)
    }

    /// Keeps what the backend said of a domain, if there is a cache.
    pub fn remember_domain(&mut self, domain: &str, local: bool)
        ensures
            final(self).store == old(self).store,
            old(self).cache is None ==> final(self).cache is None,
            old(self).cache is Some ==> final(self).known_domain(domain@) == Some(local),
    {
        match self.cache.take() {
            Some(mut cache) => {
                cache.set_domain(domain, local);
                self.cache = Some(cache);
            },
            None => {},
        }
    }

    /// What a recipient address is. The cache answers if it knows; else
    /// the directory in memory answers, and the cache keeps the answer;
    /// else the backend is to be asked, and `remember_rcpt` to be told
    /// what it said.
    pub fn rcpt(&mut self, email: &str) -> (found: Lookup<RcptType>)
        requires
            old(self).wf(),
        ensures
            final(self).wf(),
            final(self).store == old(self).store,
            match old(self).known_rcpt(email@) {
                Some(rcpt) => found matches Lookup::Known(answer) && answer@ == rcpt && *final(self) == *old(self),
                None => match old(self).store {
                    DirectoryInner::Memory(store) => found matches Lookup::Known(answer) && (
                    store@.ids_of(email@) is Some ==> answer is Mailbox) && (store@.ids_of(
                        email@,
                    ) is None ==> answer is Invalid) && (old(self).cache is Some ==> final(self).known_rcpt(email@) == Some(answer@)),
                    _ => found matches Lookup::Ask(backend) && Some(backend) == old(self).store.spec_backend() && *final(self) == *old(self),
                },
            },
    {
        // Check cache
        match &self.cache {
            Some(cache) => match cache.get_rcpt(email) {
                Some(rcpt) => {
                    return Lookup::Known(rcpt);
                },
                None => {},
            },
            None => {},
        }
        let result = match &self.store {
            DirectoryInner::Memory(store) => store.rcpt(email),
            other => {
                return match other.backend() {
                    Some(backend) => Lookup::Ask(backend),
                    None => Lookup::Known(RcptType::Invalid),
                };
            },
        };
        // Update cache
        self.remember_rcpt(email, &result);
        Lookup::Known(result)
    }

    /// Keeps what the backend said of a recipient, if there is a cache.
    pub fn remember_rcpt(&mut self, email: &str, rcpt: &RcptType)
        ensures
            final(self).store == old(self).store,
            old(self).cache is None ==> final(self).cache is None,
            old(self).cache is Some ==> final(self).known_rcpt(email@) == Some(rcpt@),
    {
        match self.cache.take() {
            Some(mut cache) => {
                cache.set_rcpt(email, rcpt);
                self.cache = Some(cache);
            },
            None => {},
        }
    }

    /// The primary addresses that hold `address`.
    pub fn vrfy(&self, address: &str) -> (found: Lookup<Vec<String>>)
        ensures
            match self.store {
                DirectoryInner::Memory(store) => found matches Lookup::Known(result) && views(
                    result@,
                ) == verified(store@.emails, address@),
                _ => found matches Lookup::Ask(backend) && Some(backend)
                    == self.store.spec_backend(),
            },
    {
        match &self.store {
            DirectoryInner::Memory(store) => Lookup::Known(store.vrfy(address)),
            DirectoryInner::Internal => Lookup::Ask(Backend::Internal),
            DirectoryInner::Ldap => Lookup::Ask(Backend::Ldap),
            DirectoryInner::Sql => Lookup::Ask(Backend::Sql),
            DirectoryInner::Imap => Lookup::Ask(Backend::Imap),
            DirectoryInner::Smtp => Lookup::Ask(Backend::Smtp),
            DirectoryInner::OpenId => Lookup::Ask(Backend::OpenId),
        }
    }

    /// The members that the lists of an address expand to.
    pub fn expn(&self, address: &str) -> (found: Lookup<Vec<String>>)
        ensures
            match self.store {
                DirectoryInner::Memory(store) => found matches Lookup::Known(result) && views(
                    result@,
                ) == expanded(store@.emails, store@.principals, address@),
                _ => found matches Lookup::Ask(backend) && Some(backend)
                    == self.store.spec_backend(),
            },
    {
        match &self.store {
            DirectoryInner::Memory(store) => Lookup::Known(store.expn(address)),
            DirectoryInner::Internal => Lookup::Ask(Backend::Internal),
            DirectoryInner::Ldap => Lookup::Ask(Backend::Ldap),
            DirectoryInner::Sql => Lookup::Ask(Backend::Sql),
            DirectoryInner::Imap => Lookup::Ask(Backend::Imap),
            DirectoryInner::Smtp => Lookup::Ask(Backend::Smtp),
            DirectoryInner::OpenId => Lookup::Ask(Backend::OpenId),
        }
    }

    /// Only the OpenID Connect backend can validate bearer tokens.
    pub fn has_bearer_token_support(&self) -> (supported: bool)
        ensures
            supported == (self.store is OpenId),
    {
        match &self.store {
            DirectoryInner::Internal
            | DirectoryInner::Ldap
            | DirectoryInner::Sql
            | DirectoryInner::Imap
            | DirectoryInner::Smtp
            | DirectoryInner::Memory(_) => false,
            DirectoryInner::OpenId => true,
        }
    }
}

} // verus!
