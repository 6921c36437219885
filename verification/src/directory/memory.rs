//! The directory that is kept in memory: principals, the addresses that
//! lead to them, and the domains that are local.

use vstd::prelude::*;
use vstd::utf8::encode_utf8;
use crate::compare::{Structured, views, option_view, duplicate_items, same_items,
    lemma_views_push};
use crate::index::{BASIS, HashIndex, bucket_of, indexes, lemma_index_add, lemma_index_complete,
    lemma_index_sound, mix_bytes, mixed_all};
use crate::text::{same_text, to_chars};

verus! {

/// An account, a group or a list of the directory.
#[derive(Debug)]
pub struct Principal {
    pub id: u32,
    pub name: String,
    pub secrets: Vec<String>,
    pub emails: Vec<String>,
}

pub struct PrincipalView {
    pub id: u32,
    pub name: Seq<char>,
    pub secrets: Seq<Seq<char>>,
    pub emails: Seq<Seq<char>>,
}

impl View for Principal {
    type V = PrincipalView;

    open spec fn view(&self) -> PrincipalView {
        PrincipalView {
            id: self.id,
            name: self.name@,
            secrets: views(self.secrets@),
            emails: views(self.emails@),
        }
    }
}

impl Structured for Principal {
    fn same_as(&self, other: &Self) -> (same: bool) {
        self.id == other.id && self.name.same_as(&other.name) && same_items(
            &self.secrets,
            &other.secrets,
        ) && same_items(&self.emails, &other.emails)
    }

    fn duplicate(&self) -> (copy: Self) {
        Principal {
            id: self.id,
            name: self.name.duplicate(),
            secrets: duplicate_items(&self.secrets),
            emails: duplicate_items(&self.emails),
        }
    }
}

/// What a client proves its identity with.
#[derive(Debug)]
pub enum Credentials {
    Plain { username: String, secret: String },
    OAuthBearer { token: String },
    XOauth2 { username: String, secret: String },
}

impl Credentials {
    /// The name that the credentials are looked up under.
    pub open spec fn username(self) -> Seq<char> {
        match self {
            Credentials::Plain { username, .. } => username@,
            Credentials::OAuthBearer { token } => token@,
            Credentials::XOauth2 { username, .. } => username@,
        }
    }

    /// The secret that the credentials are verified with.
    pub open spec fn secret(self) -> Seq<char> {
        match self {
            Credentials::Plain { secret, .. } => secret@,
            Credentials::OAuthBearer { token } => token@,
            Credentials::XOauth2 { secret, .. } => secret@,
        }
    }
}

/// What a principal is looked up by.
#[derive(Debug)]
pub enum QueryBy {
    Name(String),
    Id(u32),
    Credentials(Credentials),
}

/// A query for a principal.
#[derive(Debug)]
pub struct QueryParams {
    pub by: QueryBy,
    pub return_member_of: bool,
}

/// What a query for a principal comes to.
#[derive(Debug)]
pub enum QueryOutcome {
    /// The principal that was asked for.
    Found(Principal),
    /// There is no such principal.
    NotFound,
    /// The principal of that name is found if the secret is one of its
    /// own; to tell is not the directory's part.
    Verify { principal: Principal, secret: String },
}

pub enum QueryOutcomeView {
    Found(PrincipalView),
    NotFound,
    Verify { principal: PrincipalView, secret: Seq<char> },
}

impl View for QueryOutcome {
    type V = QueryOutcomeView;

    open spec fn view(&self) -> QueryOutcomeView {
        match self {
            QueryOutcome::Found(principal) => QueryOutcomeView::Found(principal@),
            QueryOutcome::NotFound => QueryOutcomeView::NotFound,
            QueryOutcome::Verify { principal, secret } => QueryOutcomeView::Verify {
                principal: principal@,
                secret: secret@,
            },
        }
    }
}

impl QueryOutcome {
    /// The answer to a query once the secret has been checked.
    pub fn verified(self, secret_is_valid: bool) -> (principal: Option<Principal>)
        ensures
            option_view(principal) == match self@ {
                QueryOutcomeView::Found(found) => Some(found),
                QueryOutcomeView::NotFound => None,
                QueryOutcomeView::Verify { principal, .. } => if secret_is_valid {
                    Some(principal)
                } else {
                    None
                },
            },
    {
        match self {
            QueryOutcome::Found(principal) => Some(principal),
            QueryOutcome::NotFound => None,
            QueryOutcome::Verify { principal, .. } => if secret_is_valid {
                Some(principal)
            } else {
                None
            },
        }
    }
}

/// How an address leads to a principal.
#[derive(Clone, Copy, Debug, PartialEq, Eq, Structural)]
pub enum EmailType {
    Primary(u32),
    Alias(u32),
    List(u32),
}

impl EmailType {
    /// The id of the principal.
    pub open spec fn spec_id(self) -> u32 {
        match self {
            EmailType::Primary(id) => id,
            EmailType::Alias(id) => id,
            EmailType::List(id) => id,
        }
    }

    /// The id of the principal.
    #[verifier::when_used_as_spec(spec_id)]
    pub fn id(self) -> (id: u32)
        ensures
            id == self.spec_id(),
    {
        match self {
            EmailType::Primary(id) | EmailType::Alias(id) | EmailType::List(id) => id,
        }
    }
}

/// What a recipient address is.
#[derive(Debug, PartialEq, Eq)]
pub enum RcptType {
    Mailbox,
    List(Vec<String>),
    Invalid,
}

impl RcptType {
    /// An address that is known is a mailbox; one that is not is
    /// invalid.
    pub fn from_known(known: bool) -> (rcpt: RcptType)
        ensures
            known ==> rcpt is Mailbox,
            !known ==> rcpt is Invalid,
    {
        if known {
            RcptType::Mailbox
        } else {
            RcptType::Invalid
        }
    }
}

/// An address with the principals it leads to.
#[derive(Debug)]
pub struct EmailEntry {
    pub address: String,
    pub ids: Vec<EmailType>,
}

pub struct EmailEntryView {
    pub address: Seq<char>,
    pub ids: Seq<EmailType>,
}

impl View for EmailEntry {
    type V = EmailEntryView;

    open spec fn view(&self) -> EmailEntryView {
        EmailEntryView { address: self.address@, ids: self.ids@ }
    }
}

/// The hash of a text.
pub open spec fn text_hash(text: Seq<char>) -> u64 {
    mixed_all(BASIS, encode_utf8(text))
}

/// The hash of a text.
pub fn hash_text(text: &str) -> (hash: u64)
    ensures
        hash == text_hash(text@),
{
    mix_bytes(BASIS, text.as_bytes())
}

/// The hashes of the addresses, in order.
pub open spec fn address_hashes(entries: Seq<EmailEntryView>) -> Seq<u64> {
    Seq::new(entries.len(), |i: int| text_hash(entries[i].address))
}

/// The hashes of the texts, in order.
pub open spec fn text_hashes(texts: Seq<Seq<char>>) -> Seq<u64> {
    Seq::new(texts.len(), |i: int| text_hash(texts[i]))
}

/// Where the entry of an address stands.
pub open spec fn entry_at(entries: Seq<EmailEntryView>, address: Seq<char>) -> Option<int>
    decreases entries.len(),
{
    if entries.len() == 0 {
        None
    } else {
        match entry_at(entries.drop_last(), address) {
            Some(at) => Some(at),
            None => if entries.last().address == address {
                Some(entries.len() - 1)
            } else {
                None
            },
        }
    }
}

/// `entry_at` finds the first entry of the address, and says `None`
/// only if there is none.
pub proof fn lemma_entry_at(entries: Seq<EmailEntryView>, address: Seq<char>)
    ensures
        match entry_at(entries, address) {
            Some(at) => 0 <= at < entries.len() && entries[at].address == address && forall|
                j: int,
            | 0 <= j < at ==> entries[j].address != address,
            None => forall|j: int| 0 <= j < entries.len() ==> entries[j].address != address,
        },
    decreases entries.len(),
{
    if entries.len() > 0 {
        let front = entries.drop_last();
        lemma_entry_at(front, address);
        assert(forall|j: int| 0 <= j < front.len() ==> front[j] == entries[j]);
        match entry_at(front, address) {
            Some(at) => {},
            None => {
                assert forall|j: int| 0 <= j < entries.len() - 1 implies entries[j].address
                    != address by {
                    assert(front[j] == entries[j]);
                }
            },
        }
    }
}

/// Where the first principal of a name stands.
pub open spec fn principal_named(principals: Seq<PrincipalView>, name: Seq<char>) -> Option<int>
    decreases principals.len(),
{
    if principals.len() == 0 {
        None
    } else {
        match principal_named(principals.drop_last(), name) {
            Some(at) => Some(at),
            None => if principals.last().name == name {
                Some(principals.len() - 1)
            } else {
                None
            },
        }
    }
}

/// `principal_named` finds the first principal of a name, and says
/// `None` only if there is none.
pub proof fn lemma_principal_named(principals: Seq<PrincipalView>, name: Seq<char>)
    ensures
        match principal_named(principals, name) {
            Some(at) => 0 <= at < principals.len() && principals[at].name == name && forall|j: int|
                0 <= j < at ==> !(principals[j].name == name),
            None => forall|j: int| 0 <= j < principals.len() ==> !(principals[j].name == name),
        },
    decreases principals.len(),
{
    if principals.len() > 0 {
        let front = principals.drop_last();
        lemma_principal_named(front, name);
        assert(forall|j: int| 0 <= j < front.len() ==> front[j] == principals[j]);
        match principal_named(front, name) {
            Some(at) => {},
            None => {
                assert forall|j: int| 0 <= j < principals.len() - 1 implies !(principals[j].name == name) by {
                    assert(front[j] == principals[j]);
                }
            },
        }
    }
}

/// Where the first principal with an id stands.
pub open spec fn principal_with_id(principals: Seq<PrincipalView>, id: u32) -> Option<int>
    decreases principals.len(),
{
    if principals.len() == 0 {
        None
    } else {
        match principal_with_id(principals.drop_last(), id) {
            Some(at) => Some(at),
            None => if principals.last().id == id {
                Some(principals.len() - 1)
            } else {
                None
            },
        }
    }
}

/// `principal_with_id` finds the first principal with an id, and says
/// `None` only if there is none.
pub proof fn lemma_principal_with_id(principals: Seq<PrincipalView>, id: u32)
    ensures
        match principal_with_id(principals, id) {
            Some(at) => 0 <= at < principals.len() && principals[at].id == id && forall|j: int|
                0 <= j < at ==> !(principals[j].id == id),
            None => forall|j: int| 0 <= j < principals.len() ==> !(principals[j].id == id),
        },
    decreases principals.len(),
{
    if principals.len() > 0 {
        let front = principals.drop_last();
        lemma_principal_with_id(front, id);
        assert(forall|j: int| 0 <= j < front.len() ==> front[j] == principals[j]);
        match principal_with_id(front, id) {
            Some(at) => {},
            None => {
                assert forall|j: int| 0 <= j < principals.len() - 1 implies !(principals[j].id == id) by {
                    assert(front[j] == principals[j]);
                }
            },
        }
    }
}

/// Whether `needle` occurs in `text`.
pub open spec fn occurs_in(text: Seq<char>, needle: Seq<char>) -> bool {
    exists|i: int|
        0 <= i <= text.len() - needle.len() && #[trigger] text.subrange(i, i + needle.len())
            == needle
}

/// Whether `needle` occurs in `text`.
pub fn contains_text(text: &Vec<char>, needle: &Vec<char>) -> (found: bool)
    ensures
        found == occurs_in(text@, needle@),
{
    if needle.len() > text.len() {
        return false;
    }
    let last: usize = text.len() - needle.len();
    let mut i: usize = 0;
    while i <= last
        invariant
            last == text.len() - needle.len(),
            i <= last + 1,
            forall|j: int| 0 <= j < i ==> #[trigger] text@.subrange(j, j + needle.len()) != needle@,
        decreases last + 1 - i,
    {
        let mut k: usize = 0;
        while k < needle.len() && text[i + k] == needle[k]
            invariant
                i <= last,
                last == text.len() - needle.len(),
                k <= needle.len(),
                forall|m: int| 0 <= m < k ==> text@[i + m] == needle@[m],
            decreases needle.len() - k,
        {
            k += 1;
        }
        if k == needle.len() {
            assert(text@.subrange(i as int, i + needle.len()) =~= needle@);
            return true;
        }
        assert(text@.subrange(i as int, i + needle.len())[k as int] != needle@[k as int]);
        i += 1;
    }
    false
}

/// The directory that is kept in memory.
pub struct MemoryDirectory {
    principals: Vec<Principal>,
    emails: Vec<EmailEntry>,
    emails_to_ids: HashIndex,
    domains: Vec<String>,
    domain_index: HashIndex,
}

pub struct MemoryDirectoryView {
    pub principals: Seq<PrincipalView>,
    pub emails: Seq<EmailEntryView>,
    pub domains: Seq<Seq<char>>,
}

impl View for MemoryDirectory {
    type V = MemoryDirectoryView;

    closed spec fn view(&self) -> MemoryDirectoryView {
        MemoryDirectoryView {
            principals: views(self.principals@),
            emails: views(self.emails@),
            domains: views(self.domains@),
        }
    }
}

impl MemoryDirectoryView {
    /// Every address has one entry, and every domain stands once.
    pub open spec fn wf(self) -> bool {
        &&& forall|i: int, j: int|
            0 <= i < j < self.emails.len() ==> self.emails[i].address != self.emails[j].address
        &&& forall|i: int, j: int|
            0 <= i < j < self.domains.len() ==> self.domains[i] != self.domains[j]
    }

    /// The principals that an address leads to; none where the address
    /// is not known.
    pub open spec fn ids_of(self, address: Seq<char>) -> Option<Seq<EmailType>> {
        match entry_at(self.emails, address) {
            Some(at) => Some(self.emails[at].ids),
            None => None,
        }
    }

    /// Whether a domain is local.
    pub open spec fn has_domain(self, domain: Seq<char>) -> bool {
        self.domains.contains(domain)
    }

    /// What a query comes to.
    pub open spec fn query(self, by: QueryBy) -> QueryOutcomeView {
        match by {
            QueryBy::Name(name) => match principal_named(self.principals, name@) {
                Some(at) => QueryOutcomeView::Found(self.principals[at]),
                None => QueryOutcomeView::NotFound,
            },
            QueryBy::Id(id) => match principal_with_id(self.principals, id) {
                Some(at) => QueryOutcomeView::Found(self.principals[at]),
                None => QueryOutcomeView::NotFound,
            },
            QueryBy::Credentials(credentials) => match principal_named(
                self.principals,
                credentials.username(),
            ) {
                Some(at) => QueryOutcomeView::Verify {
                    principal: self.principals[at],
                    secret: credentials.secret(),
                },
                None => QueryOutcomeView::NotFound,
            },
        }
    }

    /// The id that an address leads to first.
    pub open spec fn email_to_id(self, address: Seq<char>) -> Option<u32> {
        match self.ids_of(address) {
            Some(ids) if ids.len() > 0 => Some(ids[0].spec_id()),
            _ => None,
        }
    }
}

/// Whether one of the ids is that of a primary address.
pub open spec fn has_primary(ids: Seq<EmailType>) -> bool {
    exists|i: int| 0 <= i < ids.len() && (#[trigger] ids[i]) is Primary
}

/// The addresses that hold `part` and are the primary address of a
/// principal, in the order of their entries.
pub open spec fn verified(entries: Seq<EmailEntryView>, part: Seq<char>) -> Seq<Seq<char>>
    decreases entries.len(),
{
    if entries.len() == 0 {
        Seq::empty()
    } else if occurs_in(entries.last().address, part) && has_primary(entries.last().ids) {
        verified(entries.drop_last(), part).push(entries.last().address)
    } else {
        verified(entries.drop_last(), part)
    }
}

/// The first address of each list among the ids, as far as the list is
/// a principal with an address.
pub open spec fn expanded_ids(ids: Seq<EmailType>, principals: Seq<PrincipalView>) -> Seq<
    Seq<char>,
>
    decreases ids.len(),
{
    if ids.len() == 0 {
        Seq::empty()
    } else {
        let front = expanded_ids(ids.drop_last(), principals);
        match ids.last() {
            EmailType::List(id) => match principal_with_id(principals, id) {
                Some(at) if principals[at].emails.len() > 0 => front.push(
                    principals[at].emails[0],
                ),
                _ => front,
            },
            _ => front,
        }
    }
}

/// The members that the lists of an address expand to.
pub open spec fn expanded(
    entries: Seq<EmailEntryView>,
    principals: Seq<PrincipalView>,
    address: Seq<char>,
) -> Seq<Seq<char>>
    decreases entries.len(),
{
    if entries.len() == 0 {
        Seq::empty()
    } else if entries.last().address == address {
        expanded(entries.drop_last(), principals, address) + expanded_ids(
            entries.last().ids,
            principals,
        )
    } else {
        expanded(entries.drop_last(), principals, address)
    }
}

impl MemoryDirectory {
    /// The indexes lead to the entries, every address has one entry, and
    /// every domain stands once.
    pub closed spec fn wf(&self) -> bool {
        &&& self@.wf()
        &&& indexes(self.emails_to_ids@, address_hashes(views(self.emails@)))
        &&& indexes(self.domain_index@, text_hashes(views(self.domains@)))
    }

    /// A directory without principals, addresses or domains.
    pub fn new() -> (directory: MemoryDirectory)
        ensures
            directory.wf(),
            directory@.principals.len() == 0,
            directory@.emails.len() == 0,
            directory@.domains.len() == 0,
    {
        let directory = MemoryDirectory {
            principals: Vec::new(),
            emails: Vec::new(),
            emails_to_ids: HashIndex::new(),
            domains: Vec::new(),
            domain_index: HashIndex::new(),
        };
        assert(address_hashes(views(directory.emails@)) =~= Seq::empty());
        assert(text_hashes(views(directory.domains@)) =~= Seq::empty());
        directory
    }

    /// Adds a principal behind those that are there.
    pub fn add_principal(&mut self, principal: Principal)
        requires
            old(self).wf(),
        ensures
            final(self).wf(),
            final(self)@ == (MemoryDirectoryView {
                principals: old(self)@.principals.push(principal@),
                ..old(self)@
            }),
    {
        proof {
            lemma_views_push(self.principals@, principal);
        }
        self.principals.push(principal);
        proof {
            assert(self.emails == old(self).emails);
            assert(self.domains == old(self).domains);
            assert(self.emails_to_ids == old(self).emails_to_ids);
            assert(self.domain_index == old(self).domain_index);
            assert(self@.emails == old(self)@.emails);
            assert(self@.domains == old(self)@.domains);
        }
    }

    /// Where the entry of an address stands.
    fn find_entry(&self, address: &str) -> (found: Option<usize>)
        requires
            self.wf(),
        ensures
            match found {
                Some(at) => at < self.emails.len() && entry_at(self@.emails, address@) == Some(
                    at as int,
                ),
                None => entry_at(self@.emails, address@) is None,
            },
    {
        let ghost entries = views(self.emails@);
        let ghost hashes = address_hashes(entries);
        let hash = hash_text(address);
        let positions = self.emails_to_ids.candidates(hash);
        let mut k: usize = 0;
        while k < positions.len()
            invariant
                k <= positions.len(),
                entries == views(self.emails@),
                hashes == address_hashes(entries),
                self.wf(),
                positions@ == bucket_of(self.emails_to_ids@, hash),
                forall|j: int|
                    0 <= j < k ==> (#[trigger] positions@[j]) < entries.len()
                        && entries[positions@[j] as int].address != address@,
            decreases positions.len() - k,
        {
            proof {
                lemma_index_sound(self.emails_to_ids@, hashes, hash, k as int);
            }
            let at = positions[k];
            if same_text(self.emails[at].address.as_str(), address) {
                proof {
                    assert(entries[at as int].address == address@);
                    lemma_entry_at(entries, address@);
                }
                return Some(at);
            }
            k += 1;
        }
        proof {
            lemma_entry_at(entries, address@);
            if entry_at(entries, address@) is Some {
                let at = entry_at(entries, address@)->0;
                assert(hashes[at] == hash);
                let j = lemma_index_complete(self.emails_to_ids@, hashes, at);
                assert(0 <= at < self.emails.len());
                assert((at as usize) as int == at);
                assert(positions@[j] == at as usize);
                assert(false);
            }
        }
        None
    }

    /// Where a domain stands.
    fn find_domain(&self, domain: &str) -> (found: Option<usize>)
        requires
            self.wf(),
        ensures
            match found {
                Some(at) => at < self.domains.len() && self@.domains[at as int] == domain@,
                None => !self@.has_domain(domain@),
            },
    {
        let ghost domains = views(self.domains@);
        let ghost hashes = text_hashes(domains);
        let hash = hash_text(domain);
        let positions = self.domain_index.candidates(hash);
        let mut k: usize = 0;
        while k < positions.len()
            invariant
                k <= positions.len(),
                domains == views(self.domains@),
                hashes == text_hashes(domains),
                self.wf(),
                positions@ == bucket_of(self.domain_index@, hash),
                forall|j: int|
                    0 <= j < k ==> (#[trigger] positions@[j]) < domains.len()
                        && domains[positions@[j] as int] != domain@,
            decreases positions.len() - k,
        {
            proof {
                lemma_index_sound(self.domain_index@, hashes, hash, k as int);
            }
            let at = positions[k];
            if same_text(self.domains[at].as_str(), domain) {
                return Some(at);
            }
            k += 1;
        }
        proof {
            if domains.contains(domain@) {
                let at = choose|i: int| 0 <= i < domains.len() && domains[i] == domain@;
                assert(hashes[at] == hash);
                let j = lemma_index_complete(self.domain_index@, hashes, at);
                assert(0 <= at < self.domains.len());
                assert((at as usize) as int == at);
                assert(positions@[j] == at as usize);
                assert(false);
            }
        }
        None
    }

    /// Lets an address lead to one more principal.
    pub fn add_email(&mut self, address: String, kind: EmailType)
        requires
            old(self).wf(),
            old(self)@.emails.len() < usize::MAX,
        ensures
            final(self).wf(),
            final(self)@.principals == old(self)@.principals,
            final(self)@.domains == old(self)@.domains,
            final(self)@.emails == match entry_at(old(self)@.emails, address@) {
                Some(at) => old(self)@.emails.update(
                    at,
                    EmailEntryView { address: address@, ids: old(self)@.emails[at].ids.push(kind) },
                ),
                None => old(self)@.emails.push(EmailEntryView { address: address@, ids: seq![kind] }),
            },
    {
        let ghost before = views(self.emails@);
        proof {
            lemma_entry_at(before, address@);
        }
        match self.find_entry(address.as_str()) {
            Some(at) => {
                let mut entry = self.emails.remove(at);
                entry.ids.push(kind);
                self.emails.insert(at, entry);
                proof {
                    assert(views(self.emails@) =~= before.update(
                        at as int,
                        EmailEntryView { address: address@, ids: before[at as int].ids.push(kind) },
                    ));
                    assert(address_hashes(views(self.emails@)) =~= address_hashes(before));
                }
            },
            None => {
                let hash = hash_text(address.as_str());
                let mut ids: Vec<EmailType> = Vec::new();
                ids.push(kind);
                let entry = EmailEntry { address, ids };
                proof {
                    lemma_views_push(self.emails@, entry);
                    lemma_index_add(self.emails_to_ids@, address_hashes(before), hash);
                    assert(address_hashes(before).push(hash) =~= address_hashes(
                        before.push(entry@),
                    ));
                    assert(entry@.ids =~= seq![kind]);
                }
                self.emails_to_ids.add(hash, self.emails.len());
                self.emails.push(entry);
            },
        }
        proof {
            assert(self.domains == old(self).domains);
            assert(self.domain_index == old(self).domain_index);
            assert(self@.domains == old(self)@.domains);
            assert(indexes(self.domain_index@, text_hashes(views(self.domains@))));
            assert(indexes(self.emails_to_ids@, address_hashes(views(self.emails@))));
            assert(self@.wf());
        }
    }

    /// Makes a domain local.
    pub fn add_domain(&mut self, domain: String)
        requires
            old(self).wf(),
            old(self)@.domains.len() < usize::MAX,
        ensures
            final(self).wf(),
            final(self)@.principals == old(self)@.principals,
            final(self)@.emails == old(self)@.emails,
            final(self)@.domains == if old(self)@.has_domain(domain@) {
                old(self)@.domains
            } else {
                old(self)@.domains.push(domain@)
            },
    {
        let ghost before = views(self.domains@);
        match self.find_domain(domain.as_str()) {
            Some(_) => {
                assert(before.contains(domain@));
            },
            None => {
                let hash = hash_text(domain.as_str());
                proof {
                    lemma_views_push(self.domains@, domain);
                    lemma_index_add(self.domain_index@, text_hashes(before), hash);
                    assert(text_hashes(before).push(hash) =~= text_hashes(before.push(domain@)));
                }
                self.domain_index.add(hash, self.domains.len());
                self.domains.push(domain);
            },
        }
        proof {
            assert(self.emails == old(self).emails);
            assert(self.emails_to_ids == old(self).emails_to_ids);
            assert(self@.emails == old(self)@.emails);
            assert(indexes(self.emails_to_ids@, address_hashes(views(self.emails@))));
            assert(indexes(self.domain_index@, text_hashes(views(self.domains@))));
            assert(self@.wf());
        }
    }

    /// Where the first principal of a name stands.
    fn find_named(&self, name: &str) -> (found: Option<usize>)
        ensures
            match found {
                Some(at) => at < self.principals.len() && principal_named(
                    self@.principals,
                    name@,
                ) == Some(at as int),
                None => principal_named(self@.principals, name@) is None,
            },
    {
        let ghost all = views(self.principals@);
        let mut i: usize = 0;
        while i < self.principals.len()
            invariant
                i <= self.principals.len(),
                all == views(self.principals@),
                forall|j: int| 0 <= j < i ==> all[j].name != name@,
            decreases self.principals.len() - i,
        {
            if same_text(self.principals[i].name.as_str(), name) {
                proof {
                    assert(all[i as int].name == name@);
                    lemma_principal_named(all, name@);
                }
                return Some(i);
            }
            i += 1;
        }
        proof {
            lemma_principal_named(all, name@);
        }
        None
    }

    /// Where the first principal with an id stands.
    fn find_with_id(&self, id: u32) -> (found: Option<usize>)
        ensures
            match found {
                Some(at) => at < self.principals.len() && principal_with_id(self@.principals, id)
                    == Some(at as int),
                None => principal_with_id(self@.principals, id) is None,
            },
    {
        let ghost all = views(self.principals@);
        let mut i: usize = 0;
        while i < self.principals.len()
            invariant
                i <= self.principals.len(),
                all == views(self.principals@),
                forall|j: int| 0 <= j < i ==> all[j].id != id,
            decreases self.principals.len() - i,
        {
            if self.principals[i].id == id {
                proof {
                    assert(all[i as int].id == id);
                    lemma_principal_with_id(all, id);
                }
                return Some(i);
            }
            i += 1;
        }
        proof {
            lemma_principal_with_id(all, id);
        }
        None
    }

    /// Looks a principal up by its name, by its id, or by credentials.
    /// With credentials the principal of the name is handed out for the
    /// secret to be verified.
    pub fn query(&self, by: &QueryParams) -> (outcome: QueryOutcome)
        ensures
            outcome@ == self@.query(by.by),
    {
        match &by.by {
            QueryBy::Name(name) => match self.find_named(name.as_str()) {
                Some(at) => QueryOutcome::Found(self.principals[at].duplicate()),
                None => QueryOutcome::NotFound,
            },
            QueryBy::Id(id) => match self.find_with_id(*id) {
                Some(at) => QueryOutcome::Found(self.principals[at].duplicate()),
                None => QueryOutcome::NotFound,
            },
            QueryBy::Credentials(credentials) => {
                let (username, secret) = match credentials {
                    Credentials::Plain { username, secret } => (username, secret),
                    Credentials::OAuthBearer { token } => (token, token),
                    Credentials::XOauth2 { username, secret } => (username, secret),
                };
                match self.find_named(username.as_str()) {
                    Some(at) => QueryOutcome::Verify {
                        principal: self.principals[at].duplicate(),
                        secret: secret.clone(),
                    },
                    None => QueryOutcome::NotFound,
                }
            },
        }
    }

    /// The id of the principal that an address leads to first.
    pub fn email_to_id(&self, address: &str) -> (id: Option<u32>)
        requires
            self.wf(),
        ensures
            id == self@.email_to_id(address@),
    {
        match self.find_entry(address) {
            Some(at) => {
                if self.emails[at].ids.len() > 0 {
                    Some(self.emails[at].ids[0].id())
                } else {
                    None
                }
            },
            None => None,
        }
    }

    /// What a recipient address is: a mailbox if it is known.
    pub fn rcpt(&self, address: &str) -> (rcpt: RcptType)
        requires
            self.wf(),
        ensures
            self@.ids_of(address@) is Some ==> rcpt is Mailbox,
            self@.ids_of(address@) is None ==> rcpt is Invalid,
    {
        RcptType::from_known(self.find_entry(address).is_some())
    }

    /// The primary addresses that hold `address`.
    pub fn vrfy(&self, address: &str) -> (result: Vec<String>)
        ensures
            views(result@) == verified(self@.emails, address@),
    {
        let ghost all = views(self.emails@);
        let part = to_chars(address);
        let mut result: Vec<String> = Vec::new();
        let mut i: usize = 0;
        assert(all.take(0) =~= Seq::empty());
        assert(views(result@) =~= Seq::empty());
        while i < self.emails.len()
            invariant
                i <= self.emails.len(),
                all == views(self.emails@),
                part@ == address@,
                views(result@) == verified(all.take(i as int), address@),
            decreases self.emails.len() - i,
        {
            proof {
                assert(all.take(i + 1).drop_last() =~= all.take(i as int));
                assert(all.take(i + 1).last() == self.emails@[i as int]@);
            }
            let entry = &self.emails[i];
            let key = to_chars(entry.address.as_str());
            if contains_text(&key, &part) && any_primary(&entry.ids) {
                let found = entry.address.duplicate();
                proof {
                    lemma_views_push(result@, found);
                }
                result.push(found);
            }
            i += 1;
        }
        assert(all.take(i as int) =~= all);
        result
    }

    /// The first address of each list among the ids.
    fn expand_ids(&self, ids: &Vec<EmailType>, result: &mut Vec<String>)
        ensures
            views(final(result)@) == views(old(result)@) + expanded_ids(ids@, self@.principals),
    {
        let ghost start = views(result@);
        let mut k: usize = 0;
        assert(ids@.take(0) =~= Seq::empty());
        assert(views(result@) =~= start + expanded_ids(ids@.take(0), self@.principals));
        while k < ids.len()
            invariant
                k <= ids.len(),
                views(result@) == start + expanded_ids(ids@.take(k as int), self@.principals),
            decreases ids.len() - k,
        {
            proof {
                assert(ids@.take(k + 1).drop_last() =~= ids@.take(k as int));
            }
            let ghost front = expanded_ids(ids@.take(k as int), self@.principals);
            match ids[k] {
                EmailType::List(uid) => match self.find_with_id(uid) {
                    Some(at) => {
                        if self.principals[at].emails.len() > 0 {
                            let addr = self.principals[at].emails[0].duplicate();
                            proof {
                                lemma_views_push(result@, addr);
                                assert((start + front).push(addr@) =~= start + front.push(addr@));
                            }
                            result.push(addr);
                        }
                    },
                    None => {},
                },
                _ => {},
            }
            k += 1;
        }
        assert(ids@.take(k as int) =~= ids@);
    }

    /// The members that the lists of an address expand to.
    pub fn expn(&self, address: &str) -> (result: Vec<String>)
        ensures
            views(result@) == expanded(self@.emails, self@.principals, address@),
    {
        let ghost all = views(self.emails@);
        let mut result: Vec<String> = Vec::new();
        let mut i: usize = 0;
        assert(all.take(0) =~= Seq::empty());
        assert(views(result@) =~= Seq::empty());
        while i < self.emails.len()
            invariant
                i <= self.emails.len(),
                all == views(self.emails@),
                views(result@) == expanded(all.take(i as int), self@.principals, address@),
            decreases self.emails.len() - i,
        {
            proof {
                assert(all.take(i + 1).drop_last() =~= all.take(i as int));
                assert(all.take(i + 1).last() == self.emails@[i as int]@);
            }
            if same_text(self.emails[i].address.as_str(), address) {
                self.expand_ids(&self.emails[i].ids, &mut result);
            }
            i += 1;
        }
        assert(all.take(i as int) =~= all);
        result
    }

    /// Whether a domain is local.
    pub fn is_local_domain(&self, domain: &str) -> (local: bool)
        requires
            self.wf(),
        ensures
            local == self@.has_domain(domain@),
    {
        let found = self.find_domain(domain);
        proof {
            if found is Some {
                assert(self@.domains[found->0 as int] == domain@);
            }
        }
        found.is_some()
    }
}

/// Whether one of the ids is that of a primary address.
pub fn any_primary(ids: &Vec<EmailType>) -> (found: bool)
    ensures
        found == has_primary(ids@),
{
    let mut i: usize = 0;
    while i < ids.len()
        invariant
            i <= ids.len(),
            forall|j: int| 0 <= j < i ==> !((#[trigger] ids@[j]) is Primary),
        decreases ids.len() - i,
    {
        match ids[i] {
            EmailType::Primary(_) => {
                assert(ids@[i as int] is Primary);
                return true;
            },
            _ => {},
        }
        i += 1;
    }
    false
}

} // verus!
