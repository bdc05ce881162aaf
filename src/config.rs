//! Versioned configuration documents and their migration on upgrade.
//!
//! A user document is brought up to date against the template that ships
//! with the application:
//! - when the template's `syncVersion` is newer, the user document is
//!   replaced by the template as it stands;
//! - otherwise, when the template's `version` is newer, the system-owned
//!   entries are replaced by the template's, user-owned entries are kept,
//!   the passthrough fields are taken from the template and `version` is set
//!   to the template's;
//! - otherwise nothing changes.

use crate::text::same_text;
use crate::version::{effective_text, newer, semver_accepts, zero_text, SemVer};
use vstd::prelude::*;

verus! {

/// Who owns an entry of a configuration document.
#[derive(Clone, Copy, Debug, PartialEq, Eq, Structural)]
pub enum Origin {
    /// Shipped with the application and refreshed on upgrade.
    System,
    /// Created or edited by the user; never dropped by a migration.
    User,
}

impl Origin {
    /// The origin that an entry's tag stands for: `System` exactly when the
    /// tag is present and equals the kind's system tag.
    pub fn from_tag(tag: Option<&str>, system_tag: &str) -> (r: Origin)
        ensures
            (r == Origin::System) == (tag matches Some(t) && t@ == system_tag@),
    {
        match tag {
            Some(t) => if same_text(t, system_tag) {
                Origin::System
            } else {
                Origin::User
            },
            None => Origin::User,
        }
    }
}

/// One named entry; `body` is the entry's own JSON text, carried unchanged.
pub struct Entry {
    pub name: String,
    pub origin: Origin,
    pub body: String,
}

/// A field of the document that the migration does not interpret; `value`
/// is its JSON text.
pub struct ExtraField {
    pub key: String,
    pub value: String,
}

/// A configuration document: its two version fields, its entries and the
/// passthrough fields.
pub struct ConfigDocument {
    pub format_version: Option<String>,
    pub sync_version: Option<String>,
    pub entries: Vec<Entry>,
    pub extra: Vec<ExtraField>,
}

/// The mathematical content of a `ConfigDocument`.
pub struct DocView {
    pub format_version: Option<Seq<char>>,
    pub sync_version: Option<Seq<char>>,
    pub entries: Seq<Entry>,
    pub extra: Seq<ExtraField>,
}

pub open spec fn opt_text(o: Option<String>) -> Option<Seq<char>> {
    match o {
        Some(s) => Some(s@),
        None => None,
    }
}

impl View for ConfigDocument {
    type V = DocView;

    open spec fn view(&self) -> DocView {
        DocView {
            format_version: opt_text(self.format_version),
            sync_version: opt_text(self.sync_version),
            entries: self.entries@,
            extra: self.extra@,
        }
    }
}

/// What a migration does to the user document.
#[derive(Clone, Copy, Debug, PartialEq, Eq, Structural)]
pub enum SyncAction {
    /// Leave the user document as it is.
    Keep,
    /// Replace the user document by the template.
    ResetToTemplate,
    /// Merge the template's system entries into the user document.
    Merge,
}

/// The entries of `s` with origin `o`, in their order.
pub open spec fn of_origin(s: Seq<Entry>, o: Origin) -> Seq<Entry>
    decreases s.len(),
{
    if s.len() == 0 {
        Seq::empty()
    } else {
        let rest = of_origin(s.drop_last(), o);
        if s.last().origin == o {
            rest.push(s.last())
        } else {
            rest
        }
    }
}

/// The action taken for a template and a user document.
pub open spec fn action_for(template: DocView, user: DocView) -> SyncAction {
    if newer(effective_text(template.sync_version), effective_text(user.sync_version)) {
        SyncAction::ResetToTemplate
    } else if newer(
        effective_text(template.format_version),
        effective_text(user.format_version),
    ) {
        SyncAction::Merge
    } else {
        SyncAction::Keep
    }
}

/// The user document after the template's system entries are merged in.
pub open spec fn merged(template: DocView, user: DocView) -> DocView {
    DocView {
        format_version: Some(effective_text(template.format_version)),
        sync_version: user.sync_version,
        entries: of_origin(template.entries, Origin::System) + of_origin(
            user.entries,
            Origin::User,
        ),
        extra: template.extra,
    }
}

/// The user document after `action` is applied.
pub open spec fn applied(template: DocView, user: DocView, action: SyncAction) -> DocView {
    match action {
        SyncAction::ResetToTemplate => template,
        SyncAction::Merge => merged(template, user),
        SyncAction::Keep => user,
    }
}

/// The user document after a migration against `template`.
pub open spec fn synced(template: DocView, user: DocView) -> DocView {
    applied(template, user, action_for(template, user))
}

fn copy_text(o: &Option<String>) -> (r: Option<String>)
    ensures
        r == *o,
{
    match o {
        Some(s) => Some(s.clone()),
        None => None,
    }
}

fn as_text(o: &Option<String>) -> (r: Option<&str>)
    ensures
        match r {
            Some(s) => *o matches Some(t) && s@ == t@,
            None => *o is None,
        },
{
    match o {
        Some(s) => Some(s.as_str()),
        None => None,
    }
}

impl Entry {
    /// A copy of the entry.
    pub fn duplicate(&self) -> (r: Entry)
        ensures
            r == *self,
    {
        Entry { name: self.name.clone(), origin: self.origin, body: self.body.clone() }
    }
}

impl ExtraField {
    /// A copy of the field.
    pub fn duplicate(&self) -> (r: ExtraField)
        ensures
            r == *self,
    {
        ExtraField { key: self.key.clone(), value: self.value.clone() }
    }
}

/// Appends to `out` the entries of `src` with origin `o`.
fn push_of_origin(out: &mut Vec<Entry>, src: &Vec<Entry>, o: Origin)
    ensures
        final(out)@ == old(out)@ + of_origin(src@, o),
{
    let ghost start = out@;
    let mut i: usize = 0;
    while i < src.len()
        invariant
            i <= src@.len(),
            out@ == start + of_origin(src@.subrange(0, i as int), o),
        decreases src@.len() - i,
    {
        let ghost prefix = src@.subrange(0, i as int);
        assert(src@.subrange(0, i + 1).drop_last() =~= prefix);
        assert(src@.subrange(0, i + 1).last() == src@[i as int]);
        if src[i].origin == o {
            out.push(src[i].duplicate());
            assert(start + of_origin(prefix, o).push(src@[i as int]) =~= (start + of_origin(
                prefix,
                o,
            )).push(src@[i as int]));
        }
        i = i + 1;
    }
    assert(src@.subrange(0, src@.len() as int) =~= src@);
}

fn copy_extra(src: &Vec<ExtraField>) -> (r: Vec<ExtraField>)
    ensures
        r@ == src@,
{
    let mut out: Vec<ExtraField> = Vec::new();
    let mut i: usize = 0;
    while i < src.len()
        invariant
            i <= src@.len(),
            out@ == src@.subrange(0, i as int),
        decreases src@.len() - i,
    {
        out.push(src[i].duplicate());
        assert(src@.subrange(0, i + 1) =~= src@.subrange(0, i as int).push(src@[i as int]));
        i = i + 1;
    }
    assert(src@.subrange(0, src@.len() as int) =~= src@);
    out
}

fn copy_entries(src: &Vec<Entry>) -> (r: Vec<Entry>)
    ensures
        r@ == src@,
{
    let mut out: Vec<Entry> = Vec::new();
    let mut i: usize = 0;
    while i < src.len()
        invariant
            i <= src@.len(),
            out@ == src@.subrange(0, i as int),
        decreases src@.len() - i,
    {
        out.push(src[i].duplicate());
        assert(src@.subrange(0, i + 1) =~= src@.subrange(0, i as int).push(src@[i as int]));
        i = i + 1;
    }
    assert(src@.subrange(0, src@.len() as int) =~= src@);
    out
}

impl ConfigDocument {
    /// A copy of the document.
    pub fn duplicate(&self) -> (r: ConfigDocument)
        ensures
            r@ == self@,
    {
        ConfigDocument {
            format_version: copy_text(&self.format_version),
            sync_version: copy_text(&self.sync_version),
            entries: copy_entries(&self.entries),
            extra: copy_extra(&self.extra),
        }
    }

    /// The document's `syncVersion`, read as a version.
    pub fn sync_semver(&self) -> (r: SemVer)
        ensures
            r@ == effective_text(self@.sync_version),
    {
        SemVer::read(as_text(&self.sync_version))
    }

    /// The document's `version`, read as a version.
    pub fn format_semver(&self) -> (r: SemVer)
        ensures
            r@ == effective_text(self@.format_version),
    {
        SemVer::read(as_text(&self.format_version))
    }
}

/// The action for the two comparisons: a newer `syncVersion` forces a reset,
/// else a newer `version` asks for a merge.
pub fn decide(sync_is_newer: bool, format_is_newer: bool) -> (r: SyncAction)
    ensures
        r == (if sync_is_newer {
            SyncAction::ResetToTemplate
        } else if format_is_newer {
            SyncAction::Merge
        } else {
            SyncAction::Keep
        }),
{
    if sync_is_newer {
        SyncAction::ResetToTemplate
    } else if format_is_newer {
        SyncAction::Merge
    } else {
        SyncAction::Keep
    }
}

/// The action that a migration of `user` against `template` takes.
pub fn sync_action(template: &ConfigDocument, user: &ConfigDocument) -> (r: SyncAction)
    ensures
        r == action_for(template@, user@),
{
    let sync_is_newer = template.sync_semver().is_newer_than(&user.sync_semver());
    let format_is_newer = template.format_semver().is_newer_than(&user.format_semver());
    decide(sync_is_newer, format_is_newer)
}

/// The user document merged with the template's system entries: the user's
/// system entries are dropped, the template's are put first, the user's own
/// entries follow unchanged, the passthrough fields come from the template
/// and `version` becomes the template's.
pub fn merge(template: &ConfigDocument, user: &ConfigDocument) -> (r: ConfigDocument)
    ensures
        r@ == merged(template@, user@),
{
    let mut entries: Vec<Entry> = Vec::new();
    push_of_origin(&mut entries, &template.entries, Origin::System);
    push_of_origin(&mut entries, &user.entries, Origin::User);
    assert(entries@ =~= of_origin(template@.entries, Origin::System) + of_origin(
        user@.entries,
        Origin::User,
    ));
    let format = template.format_semver();
    ConfigDocument {
        format_version: Some(format.text()),
        sync_version: copy_text(&user.sync_version),
        entries,
        extra: copy_extra(&template.extra),
    }
}

/// The user document after `action`.
pub fn apply_action(template: &ConfigDocument, user: &ConfigDocument, action: SyncAction) -> (r:
    ConfigDocument)
    ensures
        r@ == applied(template@, user@, action),
{
    match action {
        SyncAction::ResetToTemplate => template.duplicate(),
        SyncAction::Merge => merge(template, user),
        SyncAction::Keep => user.duplicate(),
    }
}

/// Migrates `user` against `template`; returns the action taken and the
/// resulting document. Version fields that are missing or do not parse read
/// as `0.0.0`; this never fails.
pub fn sync(template: &ConfigDocument, user: &ConfigDocument) -> (r: (SyncAction, ConfigDocument))
    ensures
        r.0 == action_for(template@, user@),
        r.1@ == synced(template@, user@),
{
    let action = sync_action(template, user);
    (action, apply_action(template, user, action))
}

proof fn lemma_of_origin_concat(a: Seq<Entry>, b: Seq<Entry>, o: Origin)
    ensures
        of_origin(a + b, o) == of_origin(a, o) + of_origin(b, o),
    decreases b.len(),
{
    if b.len() == 0 {
        assert(a + b =~= a);
        assert(of_origin(a, o) + of_origin(b, o) =~= of_origin(a, o));
    } else {
        assert((a + b).drop_last() =~= a + b.drop_last());
        assert((a + b).last() == b.last());
        lemma_of_origin_concat(a, b.drop_last(), o);
        if b.last().origin == o {
            assert(of_origin(a, o) + of_origin(b.drop_last(), o).push(b.last()) =~= (of_origin(
                a,
                o,
            ) + of_origin(b.drop_last(), o)).push(b.last()));
        }
    }
}

proof fn lemma_of_origin_twice(s: Seq<Entry>, o: Origin, p: Origin)
    ensures
        of_origin(of_origin(s, o), p) == (if o == p {
            of_origin(s, o)
        } else {
            Seq::<Entry>::empty()
        }),
    decreases s.len(),
{
    if s.len() > 0 {
        lemma_of_origin_twice(s.drop_last(), o, p);
        let rest = of_origin(s.drop_last(), o);
        if s.last().origin == o {
            assert(rest.push(s.last()).drop_last() =~= rest);
        }
    }
}

proof fn lemma_of_origin_members(s: Seq<Entry>, o: Origin)
    ensures
        forall|i: int| 0 <= i < s.len() && s[i].origin == o ==> of_origin(s, o).contains(#[trigger] s[i]),
        forall|e: Entry| of_origin(s, o).contains(e) ==> e.origin == o,
    decreases s.len(),
{
    if s.len() > 0 {
        lemma_of_origin_members(s.drop_last(), o);
        let rest = of_origin(s.drop_last(), o);
        assert forall|i: int| 0 <= i < s.len() && s[i].origin == o implies of_origin(s, o).contains(
            #[trigger] s[i],
        ) by {
            if i < s.len() - 1 {
                assert(s.drop_last()[i] == s[i]);
                let k = choose|k: int| 0 <= k < rest.len() && rest[k] == s[i];
                if s.last().origin == o {
                    assert(rest.push(s.last())[k] == s[i]);
                }
            } else {
                assert(rest.push(s.last())[rest.len() as int] == s[i]);
            }
        }
        assert forall|e: Entry| of_origin(s, o).contains(e) implies e.origin == o by {
            if s.last().origin == o {
                let k = choose|k: int| 0 <= k < rest.len() + 1 && rest.push(s.last())[k] == e;
                if k < rest.len() {
                    assert(rest.contains(e));
                }
            }
        }
    }
}

/// A newer template `syncVersion` replaces the user document by the template,
/// whatever the two `version` fields hold.
pub proof fn law_newer_sync_version_resets(template: DocView, user: DocView)
    requires
        newer(effective_text(template.sync_version), effective_text(user.sync_version)),
    ensures
        synced(template, user) == template,
{
}

/// Without a reset, a newer template `version` keeps every user-owned entry
/// unchanged and in order, makes the system-owned entries exactly the
/// template's, and sets `version` to the template's.
pub proof fn law_newer_format_version_merges(template: DocView, user: DocView)
    requires
        !newer(effective_text(template.sync_version), effective_text(user.sync_version)),
        newer(effective_text(template.format_version), effective_text(user.format_version)),
    ensures
        of_origin(synced(template, user).entries, Origin::User) == of_origin(
            user.entries,
            Origin::User,
        ),
        of_origin(synced(template, user).entries, Origin::System) == of_origin(
            template.entries,
            Origin::System,
        ),
        forall|i: int|
            0 <= i < user.entries.len() && user.entries[i].origin == Origin::User
                ==> synced(template, user).entries.contains(#[trigger] user.entries[i]),
        forall|e: Entry|
            synced(template, user).entries.contains(e) && e.origin == Origin::System
                ==> template.entries.contains(e),
        synced(template, user).format_version == Some(effective_text(template.format_version)),
        synced(template, user).sync_version == user.sync_version,
        synced(template, user).extra == template.extra,
{
    let sys = of_origin(template.entries, Origin::System);
    let usr = of_origin(user.entries, Origin::User);
    let r = synced(template, user).entries;
    assert(r == sys + usr);
    lemma_of_origin_concat(sys, usr, Origin::User);
    lemma_of_origin_concat(sys, usr, Origin::System);
    lemma_of_origin_twice(template.entries, Origin::System, Origin::User);
    lemma_of_origin_twice(template.entries, Origin::System, Origin::System);
    lemma_of_origin_twice(user.entries, Origin::User, Origin::User);
    lemma_of_origin_twice(user.entries, Origin::User, Origin::System);
    assert(Seq::<Entry>::empty() + usr =~= usr);
    assert(sys + Seq::<Entry>::empty() =~= sys);
    lemma_of_origin_members(user.entries, Origin::User);
    lemma_of_origin_members(template.entries, Origin::System);
    lemma_of_origin_members(user.entries, Origin::System);
    lemma_of_origin_twice(user.entries, Origin::User, Origin::User);
    assert forall|i: int|
        0 <= i < user.entries.len() && user.entries[i].origin == Origin::User implies r.contains(
        #[trigger] user.entries[i],
    ) by {
        let k = choose|k: int| 0 <= k < usr.len() && usr[k] == user.entries[i];
        assert(r[sys.len() + k] == user.entries[i]);
    }
    assert forall|e: Entry| r.contains(e) && e.origin == Origin::System implies template.entries.contains(
        e,
    ) by {
        let k = choose|k: int| 0 <= k < r.len() && r[k] == e;
        if k < sys.len() {
            assert(sys[k] == e);
            assert(sys.contains(e));
            lemma_of_origin_subset(template.entries, Origin::System);
        } else {
            assert(usr[k - sys.len()] == e);
            assert(usr.contains(e));
        }
    }
}

proof fn lemma_of_origin_subset(s: Seq<Entry>, o: Origin)
    ensures
        forall|e: Entry| of_origin(s, o).contains(e) ==> s.contains(e),
    decreases s.len(),
{
    if s.len() > 0 {
        lemma_of_origin_subset(s.drop_last(), o);
        let rest = of_origin(s.drop_last(), o);
        assert forall|e: Entry| of_origin(s, o).contains(e) implies s.contains(e) by {
            if rest.contains(e) {
                assert(s.drop_last().contains(e));
                let k = choose|k: int| 0 <= k < s.drop_last().len() && s.drop_last()[k] == e;
                assert(s[k] == e);
            } else {
                assert(s.last().origin == o);
                let k = choose|k: int| 0 <= k < rest.len() + 1 && rest.push(s.last())[k] == e;
                if k < rest.len() {
                    assert(rest[k] == e);
                }
                assert(s[s.len() - 1] == e);
            }
        }
    }
}

/// When neither version of the template is newer, the user document stays as
/// it is.
pub proof fn law_no_newer_version_keeps(template: DocView, user: DocView)
    requires
        !newer(effective_text(template.sync_version), effective_text(user.sync_version)),
        !newer(effective_text(template.format_version), effective_text(user.format_version)),
    ensures
        synced(template, user) == user,
        action_for(template, user) == SyncAction::Keep,
{
}

/// Migrating a second time against the same template changes nothing.
pub proof fn law_sync_is_idempotent(template: DocView, user: DocView)
    ensures
        synced(template, synced(template, user)) == synced(template, user),
        action_for(template, synced(template, user)) == SyncAction::Keep,
{
    let once = synced(template, user);
    assert(effective_text(Some(effective_text(template.format_version))) == effective_text(
        template.format_version,
    ));
}

/// A version field that is missing or does not parse reads as `0.0.0`.
pub proof fn law_unreadable_version_is_zero(field: Option<Seq<char>>)
    requires
        field matches Some(s) ==> !semver_accepts(s),
    ensures
        effective_text(field) == zero_text(),
{
}

} // verus!
