//! The CDN module: rules, who counts as local, and reloading.

pub mod rules;
pub mod utils;

use vstd::prelude::*;
use vstd::string::*;

use crate::cdn::rules::{Manifest, ManifestError};
use crate::types::{ReloadCmd, Rule};

verus! {

/// What happened while the module waits.
#[derive(Debug, Clone, Copy, PartialEq, Eq, Structural)]
pub enum CdnEvent {
    /// The node shuts down.
    Cancelled,
    /// Nobody can send commands any more.
    Closed,
    /// A command came in.
    Command(ReloadCmd),
}

/// What the module does next.
#[derive(Debug, Clone, Copy, PartialEq, Eq, Structural)]
pub enum CdnAction {
    /// Read the manifest again, then wait for the next event.
    Reload,
    /// Stop.
    Exit,
}

/// What the module does about an event.
pub open spec fn action_of(event: CdnEvent) -> CdnAction {
    if event == CdnEvent::Command(ReloadCmd::Reload) {
        CdnAction::Reload
    } else {
        CdnAction::Exit
    }
}

/// What the module does about an event.
pub fn cdn_action(event: CdnEvent) -> (r: CdnAction)
    ensures
        r == action_of(event),
{
    match event {
        CdnEvent::Command(ReloadCmd::Reload) => CdnAction::Reload,
        CdnEvent::Command(ReloadCmd::Shutdown) => CdnAction::Exit,
        CdnEvent::Cancelled => CdnAction::Exit,
        CdnEvent::Closed => CdnAction::Exit,
    }
}

/// Why the rules were not replaced.
#[derive(Debug, Clone)]
pub enum ReloadError {
    /// The manifest could not be read; the text says why.
    Unreadable(String),
    /// The manifest was refused.
    Refused(ManifestError),
}

impl ReloadError {
    /// The message for a reader.
    pub open spec fn text(self) -> Seq<char> {
        match self {
            ReloadError::Unreadable(why) => why@,
            ReloadError::Refused(e) => e.text(),
        }
    }

    /// The message for a reader.
    pub fn message(&self) -> (r: String)
        ensures
            r@ == self.text(),
    {
        match self {
            ReloadError::Unreadable(why) => why.clone(),
            ReloadError::Refused(e) => e.message(),
        }
    }
}

/// `then` are the rules after a reload, and `r` is its result. A manifest
/// replaces all rules where it has no error; else the rules stay as they were.
pub open spec fn is_reload(
    before: Seq<Rule>,
    manifest: Result<Manifest, String>,
    then: Seq<Rule>,
    r: Result<usize, ReloadError>,
) -> bool {
    match manifest {
        Err(why) => then == before && r == Err::<usize, ReloadError>(ReloadError::Unreadable(why)),
        Ok(m) => match rules::first_error(m.rules@, 0) {
            Some(e) => then == before && r == Err::<usize, ReloadError>(ReloadError::Refused(e)),
            None => {
                &&& r == Ok::<usize, ReloadError>(then.len() as usize)
                &&& then.len() == m.rules@.len()
                &&& forall|i: int|
                    0 <= i < then.len() ==> rules::is_rule_of(
                        #[trigger] then[i],
                        m.rules@[i],
                        m.global_cidrs(),
                    )
            },
        },
    }
}

/// Replaces the rules by those of a manifest, and counts them. `manifest` is
/// an error where it could not be read.
pub fn reload_rules(rules: &mut Vec<Rule>, manifest: Result<Manifest, String>) -> (r: Result<
    usize,
    ReloadError,
>)
    ensures
        is_reload(old(rules)@, manifest, final(rules)@, r),
{
    match manifest {
        Err(why) => Err(ReloadError::Unreadable(why)),
        Ok(m) => match rules::parse_manifest(&m) {
            Err(e) => Err(ReloadError::Refused(e)),
            Ok(parsed) => {
                let count: usize = parsed.len();
                *rules = parsed;
                Ok(count)
            },
        },
    }
}

/// A reload that fails leaves the rules as they were, so that requests are
/// still served by them.
pub proof fn failed_reloads_keep_rules(
    before: Seq<Rule>,
    manifest: Result<Manifest, String>,
    then: Seq<Rule>,
    r: Result<usize, ReloadError>,
)
    requires
        is_reload(before, manifest, then, r),
        r is Err,
    ensures
        then == before,
{
}

/// Every rule that a reload installs has a path that ends at a segment, and
/// can redirect where it is meant to.
pub proof fn installed_rules_are_sound(
    before: Seq<Rule>,
    manifest: Result<Manifest, String>,
    then: Seq<Rule>,
    r: Result<usize, ReloadError>,
    i: int,
)
    requires
        is_reload(before, manifest, then, r),
        r is Ok,
        0 <= i < then.len(),
    ensures
        rules::is_rule_path(then[i].path@),
        then[i].mode == crate::types::RuleMode::Cdn ==> then[i].cdn_url is Some,
{
    let m = manifest->Ok_0;
    rules::no_error_means_no_entry_error(m.rules@, 0, i);
    assert(rules::is_rule_of(then[i], m.rules@[i], m.global_cidrs()));
}

/// Every command to reload is carried out, and everything else ends the
/// module.
pub proof fn commands_are_carried_out()
    ensures
        action_of(CdnEvent::Command(ReloadCmd::Reload)) == CdnAction::Reload,
        action_of(CdnEvent::Command(ReloadCmd::Shutdown)) == CdnAction::Exit,
        action_of(CdnEvent::Cancelled) == CdnAction::Exit,
        action_of(CdnEvent::Closed) == CdnAction::Exit,
{
}

/// A manifest without a fault replaces all rules, each by the one in its
/// place, and they are counted; one that cannot be read or has a fault
/// replaces none.
pub proof fn reloads_replace_all_rules(
    before: Seq<Rule>,
    manifest: Manifest,
    why: String,
    then: Seq<Rule>,
    r: Result<usize, ReloadError>,
    i: int,
)
    requires
        manifest.rules@.len() <= usize::MAX,
    ensures
        is_reload(before, Ok(manifest), then, r) && (forall|k: int|
            0 <= k < manifest.rules@.len() ==> rules::rule_error(
                #[trigger] manifest.rules@[k],
                (k + 1) as usize,
            ) is None) ==> {
            &&& r == Ok::<usize, ReloadError>(manifest.rules@.len() as usize)
            &&& then.len() == manifest.rules@.len()
            &&& 0 <= i < then.len() ==> then[i].path@ == manifest.rules@[i].path@
                && then[i].max_age == manifest.rules@[i].max_age
        },
        is_reload(before, Ok(manifest), then, r) && 0 <= i < manifest.rules@.len()
            && rules::rule_error(manifest.rules@[i], (i + 1) as usize) is Some ==> then == before
            && r is Err,
        is_reload(before, Err(why), then, r) ==> then == before && r == Err::<usize, ReloadError>(
            ReloadError::Unreadable(why),
        ),
{
    let entries = manifest.rules@;
    if forall|k: int|
        0 <= k < entries.len() ==> rules::rule_error(
            #[trigger] entries[k],
            (k + 1) as usize,
        ) is None {
        if entries.len() > 0 {
            rules::the_first_faulty_rule_decides(entries, entries.len() - 1);
        }
    }
    if 0 <= i < entries.len() && rules::rule_error(entries[i], (i + 1) as usize) is Some
        && rules::first_error(entries, 0) is None {
        rules::no_error_means_no_entry_error(entries, 0, i);
    }
    if is_reload(before, Ok(manifest), then, r) && rules::first_error(entries, 0) is None && 0 <= i
        < then.len() {
        assert(rules::is_rule_of(then[i], entries[i], manifest.global_cidrs()));
    }
}

/// The networks of a manifest count for its rules where it lists some.
pub proof fn listed_networks_are_global(manifest: Manifest)
    ensures
        manifest.local_network is None ==> manifest.global_cidrs().len() == 0,
        manifest.local_network matches Some(network) ==> manifest.global_cidrs()
            == network.cidrs@,
{
}

} // verus!
