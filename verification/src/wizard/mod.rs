//! The setup wizard: what to back up, where to, when, and the password.
//!
//! The same wizard creates a backup, opens an existing one, and edits what an
//! existing profile covers or when it runs; each mode shows only the steps it
//! needs. All state lives here and every side effect is returned as an
//! [`Effect`] for the application to run, so the step logic holds without a
//! window. Times are Unix seconds handed in by the caller.

pub mod browse;
pub mod place;

use vstd::prelude::*;
use crate::dejadup::{Import, Place as From};
use crate::engine::{BackupRequest, ExclusionBreakdown, SizeEstimate};
use crate::errors::{EngineError, Probe};
use crate::i18n::Phrase;
use crate::ids::{all_lower_hex, new_profile_id};
use crate::number::{decimal, decimal_chars};
use crate::pages::{labels, retention_label};
use crate::path::{path_starts_with, same_path, same_path_chars, starts_with_path};
use crate::profile::{
    copy_texts, default_excludes, default_excludes_spec, frees_space_by_default, texts, Destination,
    DestinationView, Profile, ProfileView, Retention, Schedule,
};
use crate::text::{chars_of, is_space, lemma_blank_trims_to_nothing, string_of, trim, trimmed};
use self::place::{checked, is_new, Kind};

verus! {

/// What the wizard is for.
#[derive(Debug, Clone, PartialEq, Eq)]
pub enum Mode {
    /// Set up a new backup and create its repository.
    Create,
    /// Add a repository that already exists.
    Open,
    /// Change what an existing profile backs up.
    Edit { profile_id: String },
    /// Change when an existing profile runs and what it keeps.
    Schedule { profile_id: String },
}

/// The wizard's steps.
#[derive(Debug, Clone, Copy, PartialEq, Eq, Structural)]
pub enum Step {
    What,
    Where,
    When,
    Secure,
}

/// The steps `mode` shows, in order.
pub open spec fn steps_of(mode: Mode) -> Seq<Step> {
    match mode {
        Mode::Create => seq![Step::What, Step::Where, Step::When, Step::Secure],
        Mode::Open => seq![Step::Where, Step::When, Step::Secure],
        Mode::Edit { .. } => seq![Step::What],
        Mode::Schedule { .. } => seq![Step::When],
    }
}

/// Where `step` stands among the steps `mode` shows; the first place for
/// a step it does not show.
pub open spec fn position_of(mode: Mode, step: Step) -> int {
    match mode {
        Mode::Create => match step {
            Step::What => 0,
            Step::Where => 1,
            Step::When => 2,
            Step::Secure => 3,
        },
        Mode::Open => match step {
            Step::Where => 0,
            Step::When => 1,
            Step::Secure => 2,
            Step::What => 0,
        },
        _ => 0,
    }
}

/// `mode` edits an existing profile rather than making one.
pub open spec fn edits(mode: Mode) -> bool {
    mode is Edit || mode is Schedule
}

impl Mode {
    /// The steps this mode shows, in order.
    pub fn steps(&self) -> (r: Vec<Step>)
        ensures
            r@ == steps_of(*self),
    {
        let mut r: Vec<Step> = Vec::new();
        match self {
            Mode::Create => {
                r.push(Step::What);
                r.push(Step::Where);
                r.push(Step::When);
                r.push(Step::Secure);
            },
            Mode::Open => {
                r.push(Step::Where);
                r.push(Step::When);
                r.push(Step::Secure);
            },
            Mode::Edit { .. } => r.push(Step::What),
            Mode::Schedule { .. } => r.push(Step::When),
        }
        assert(r@ =~= steps_of(*self));
        r
    }

    /// Whether this mode edits an existing profile.
    pub fn edits(&self) -> (r: bool)
        ensures
            r == edits(*self),
    {
        match self {
            Mode::Edit { .. } | Mode::Schedule { .. } => true,
            _ => false,
        }
    }
}

/// A step's place among the steps its mode shows is where it stands.
pub proof fn lemma_position_is_the_steps_index(mode: Mode, step: Step)
    ensures
        0 <= position_of(mode, step) < steps_of(mode).len(),
        steps_of(mode).contains(step) ==> steps_of(mode)[position_of(mode, step)] == step,
{
    if steps_of(mode).contains(step) {
        let i = choose|i: int| 0 <= i < steps_of(mode).len() && steps_of(mode)[i] == step;
        assert(steps_of(mode)[i] == step);
    }
}

/// How often automatic backups run, in the order the list shows them.
pub open spec fn frequency_list() -> Seq<Schedule> {
    seq![Schedule::Hourly, Schedule::Daily, Schedule::Weekly]
}

/// How often automatic backups run, in the order the list shows them.
pub fn frequencies() -> (r: Vec<Schedule>)
    ensures
        r@ == frequency_list(),
{
    let mut r: Vec<Schedule> = Vec::new();
    r.push(Schedule::Hourly);
    r.push(Schedule::Daily);
    r.push(Schedule::Weekly);
    assert(r@ =~= frequency_list());
    r
}

/// What to keep, in the order the list shows them: Déjà Dup's choices, with
/// Smart first.
pub open spec fn keep_list() -> Seq<Retention> {
    seq![
        Retention::Smart,
        Retention::KeepFor { days: 90 },
        Retention::KeepFor { days: 182 },
        Retention::KeepFor { days: 365 },
        Retention::KeepForever,
    ]
}

/// What to keep, in the order the list shows them.
pub fn keep_choices() -> (r: Vec<Retention>)
    ensures
        r@ == keep_list(),
{
    let mut r: Vec<Retention> = Vec::new();
    r.push(Retention::Smart);
    r.push(Retention::KeepFor { days: 90 });
    r.push(Retention::KeepFor { days: 182 });
    r.push(Retention::KeepFor { days: 365 });
    r.push(Retention::KeepForever);
    assert(r@ =~= keep_list());
    r
}

/// The size estimate as the wizard shows it.
#[derive(Debug)]
pub struct EstimateView {
    /// Incremented whenever the lists change; results for an older
    /// generation are stale and ignored.
    pub generation: u64,
    pub running: bool,
    pub total: Option<SizeEstimate>,
    /// What the exclusions take out, once the total is known.
    pub breakdown: Option<ExclusionBreakdown>,
    /// The size of each excluded folder that sits inside an included one;
    /// for a folder listed twice the later size stands.
    pub exclude_sizes: Vec<(String, u64)>,
}

/// Progress of a size estimate, as it reaches the wizard.
#[derive(Debug)]
pub enum EstimateEvent {
    Progress(SizeEstimate),
    Done(SizeEstimate),
    /// What the exclusions take out, with the sizes of these folders.
    Breakdown(Vec<String>, ExclusionBreakdown),
    Failed(String),
}

/// What the wizard fills in from its surroundings: the machine's name, and
/// what Google Drive and a Déjà Dup backup are called in the user's
/// language.
#[derive(Debug, Clone)]
pub struct Names {
    pub host: String,
    pub google_drive: String,
    pub dejadup: String,
}

/// The wizard.
#[derive(Debug)]
pub struct Wizard {
    pub mode: Mode,
    pub step: Step,
    pub name: String,
    /// The name was typed (or came with the backup), so the destination no
    /// longer suggests one.
    pub name_chosen: bool,
    pub sources: Vec<String>,
    pub excludes: Vec<String>,
    pub patterns: Vec<String>,
    pub pattern_input: String,
    pub one_file_system: bool,
    /// Leave out any folder containing a `CACHEDIR.TAG` file.
    pub exclude_caches: bool,
    /// Honour each project's own `.gitignore`.
    pub git_ignore: bool,
    /// Write no snapshot when nothing changed since the last one.
    pub skip_if_unchanged: bool,
    pub place: place::Place,
    /// The profile being edited. Finishing changes only the fields the
    /// mode's steps show, so nothing else about it can be lost.
    pub base: Option<Profile>,
    /// Back up automatically. `Manual` when off.
    pub schedule: Schedule,
    /// The frequency to use when automatic backups are turned on.
    pub frequency: Schedule,
    pub retention: Retention,
    /// Free up space automatically; `None` until the user chooses, which
    /// means the default for the destination.
    pub prune: Option<bool>,
    /// rustic's own append-only mode. Only offered when creating a new
    /// backup: there is no way back from it.
    pub append_only: bool,
    pub password: String,
    pub confirm: String,
    pub password_hidden: bool,
    pub remember: bool,
    pub estimate: EstimateView,
    /// Finishing: the repository is being created or opened, since when.
    pub busy_since: Option<u64>,
    /// Next was pressed on the "where" step before the destination had been
    /// checked: move on by itself once the check succeeds.
    pub advance_when_checked: bool,
    /// Opening a backup Déjà Dup made.
    pub importing: bool,
}

/// What to do when the wizard completes.
#[derive(Debug)]
pub struct Finish {
    pub mode: Mode,
    pub profile: Profile,
    /// The password; absent when editing, as the repository is not touched.
    pub secret: Option<String>,
    pub remember: bool,
}

/// Everything the wizard needs the application to do.
#[derive(Debug)]
pub enum Effect {
    PickFolders { excludes: bool },
    Place(place::Effect),
    /// Stop the estimate under way, if any, and walk what `request` covers
    /// and size `exclude_folders`, reporting under `generation`.
    Estimate { generation: u64, request: BackupRequest, exclude_folders: Vec<String> },
    /// Stop the estimate under way, if any.
    CancelEstimate,
    Finish(Box<Finish>),
    Close,
    /// Cancel was pressed: ask the user whether to finish later or discard,
    /// rather than deciding here. A running estimate keeps going until
    /// [`Wizard::discard`] is called.
    ConfirmCancel,
}

/// No effect.
pub open spec fn nothing(effects: Seq<Effect>) -> bool {
    effects.len() == 0
}

/// The step's effects, each as the wizard's.
pub open spec fn wrapped(inner: Seq<place::Effect>) -> Seq<Effect> {
    inner.map_values(|e: place::Effect| Effect::Place(e))
}

/// `w` is the wizard as it starts in `mode`.
pub open spec fn is_fresh(w: Wizard, mode: Mode, names: Names) -> bool {
    &&& w.mode == mode
    &&& w.step == steps_of(mode)[0]
    &&& w.name@.len() == 0
    &&& !w.name_chosen
    &&& w.sources@.len() == 0
    &&& w.excludes@.len() == 0
    &&& w.patterns@.len() == 0
    &&& w.pattern_input@.len() == 0
    &&& w.one_file_system
    &&& !w.exclude_caches
    &&& !w.git_ignore
    &&& !w.skip_if_unchanged
    &&& is_new(w.place, names.host@, names.google_drive@)
    &&& w.base is None
    // A new backup runs daily and keeps a smart history.
    &&& w.schedule == Schedule::Daily
    &&& w.frequency == Schedule::Daily
    &&& w.retention == Retention::Smart
    &&& w.prune is None
    &&& !w.append_only
    &&& w.password@.len() == 0
    &&& w.confirm@.len() == 0
    &&& w.password_hidden
    &&& w.remember
    &&& w.estimate.generation == 0
    &&& !w.estimate.running
    &&& w.estimate.total is None
    &&& w.estimate.breakdown is None
    &&& w.estimate.exclude_sizes@.len() == 0
    &&& w.busy_since is None
    &&& !w.advance_when_checked
    &&& !w.importing
}

/// `exclude` takes something out of what `sources` cover: it sits inside
/// one of them.
pub open spec fn applies(sources: Seq<Seq<char>>, exclude: Seq<char>) -> bool {
    exists|i: int| 0 <= i < sources.len() && path_starts_with(exclude, #[trigger] sources[i])
}

/// The folders of `excludes` that take something out of `sources`, in order.
pub open spec fn applying(excludes: Seq<Seq<char>>, sources: Seq<Seq<char>>) -> Seq<Seq<char>>
    decreases excludes.len(),
{
    if excludes.len() == 0 {
        Seq::empty()
    } else {
        let rest = applying(excludes.drop_last(), sources);
        if applies(sources, excludes.last()) {
            rest.push(excludes.last())
        } else {
            rest
        }
    }
}

/// `request` covers what `w` describes.
pub open spec fn requests(request: BackupRequest, w: Wizard) -> bool {
    &&& texts(request.sources@) == texts(w.sources@)
    &&& texts(request.excludes@) == texts(w.excludes@)
    &&& texts(request.exclude_patterns@) == texts(w.patterns@)
    &&& request.exclude_caches == w.exclude_caches
    &&& request.git_ignore == w.git_ignore
    &&& request.one_file_system == w.one_file_system
    &&& request.time is None
}

/// The generation after `g`.
pub open spec fn next_generation(g: u64) -> u64 {
    if g == u64::MAX {
        0
    } else {
        (g + 1) as u64
    }
}

/// `after` and `effects` are what starting a new estimate for `before`'s
/// lists gives: a new generation, running, with what the exclusions take
/// out forgotten, and the walk asked for.
#[verifier::opaque]
pub open spec fn restarted(before: Wizard, after: Wizard, effects: Seq<Effect>) -> bool {
    let generation = next_generation(before.estimate.generation);
    &&& after == Wizard { estimate: after.estimate, ..before }
    &&& after.estimate.generation == generation
    &&& after.estimate.running
    &&& after.estimate.total == before.estimate.total
    &&& after.estimate.breakdown is None
    &&& after.estimate.exclude_sizes@.len() == 0
    &&& effects.len() == 1
    &&& effects[0] matches Effect::Estimate { generation: g, request, exclude_folders } && g == generation
        && requests(request, before) && texts(exclude_folders@) == applying(
        texts(before.excludes@),
        texts(before.sources@),
    )
}

/// What the "where" step needs to find at the destination: a repository to
/// open one, an empty place to make one.
pub open spec fn wanted(mode: Mode) -> Probe {
    match mode {
        Mode::Open => Probe::Repository,
        _ => Probe::Empty,
    }
}

/// The destination has been checked and holds what `mode` needs.
pub open spec fn accepted(place: place::Place, mode: Mode) -> bool {
    place.current_probe() == Some(Ok::<Probe, EngineError>(wanted(mode)))
}

/// Whether Next can be pressed. On the "where" step that is as soon as a
/// destination is described and not being checked: Next checks it, and
/// moves on when the check succeeds. A check that found the wrong thing
/// there blocks it; a check that failed can be tried again with Next.
pub open spec fn can_advance_spec(w: Wizard) -> bool {
    if w.busy_since is Some {
        false
    } else {
        match w.step {
            Step::What => w.sources@.len() > 0,
            Step::Where => {
                &&& trim(w.name@).len() > 0
                &&& w.place.described() is Some
                &&& w.place.current_check() is None
                &&& match w.place.current_probe() {
                    Some(Ok(_)) => accepted(w.place, w.mode),
                    _ => true,
                }
            },
            Step::When => true,
            Step::Secure => match w.mode {
                Mode::Create => w.password@.len() > 0 && w.password@ == w.confirm@,
                _ => w.password@.len() > 0,
            },
        }
    }
}

/// Where the backup will be, as far as is known yet: the destination the
/// "where" step describes, or else the edited profile's.
pub open spec fn destination_of(w: Wizard) -> Option<DestinationView> {
    match w.place.described() {
        Some(d) => Some(d),
        None => match w.base {
            Some(base) => Some(base.destination@),
            None => None,
        },
    }
}

/// Whether freeing space is on: the user's choice, or else the default for
/// the destination.
pub open spec fn prunes(w: Wizard) -> bool {
    match w.prune {
        Some(on) => on,
        None => match destination_of(w) {
            Some(d) => frees_space_by_default(d),
            None => false,
        },
    }
}

/// `p` is what finishing `w` saves, kept at `d`. A new profile takes
/// everything the wizard holds, including folders an import filled in
/// without showing the "what" step; an edited one changes only what its
/// steps showed.
pub open spec fn saved(p: ProfileView, w: Wizard, d: DestinationView) -> bool {
    match w.base {
        None => saved_new(p, w, d),
        Some(base) => saved_edit(p, w, base@),
    }
}

/// `p` is the new profile finishing `w` saves, kept at `d`.
pub open spec fn saved_new(p: ProfileView, w: Wizard, d: DestinationView) -> bool {
    &&& p.id.len() == 32 && all_lower_hex(p.id)
    &&& p.name == trim(w.name@)
    &&& p.destination == d
    &&& p.sources == texts(w.sources@)
    &&& p.excludes == texts(w.excludes@)
    &&& p.exclude_patterns == texts(w.patterns@)
    &&& p.one_file_system == w.one_file_system
    &&& p.exclude_caches == w.exclude_caches
    &&& p.git_ignore == w.git_ignore
    &&& p.skip_if_unchanged == w.skip_if_unchanged
    &&& p.schedule == w.schedule
    &&& p.retention == w.retention
    &&& p.prune == w.prune
    &&& p.append_only == w.append_only
    &&& p.bandwidth_limit.len() == 0
    &&& !p.conditions.require_ac && p.conditions.min_battery_percent is None
        && !p.conditions.block_metered && !p.conditions.require_trusted_network
        && p.conditions.trusted_networks.len() == 0
    &&& p.hooks.len() == 0
    &&& p.last_success is None
}

/// `p` is the edited profile `b` as finishing `w` saves it: only what the
/// mode's steps showed changes.
pub open spec fn saved_edit(p: ProfileView, w: Wizard, b: ProfileView) -> bool {
    let steps = steps_of(w.mode);
    let what = steps.contains(Step::What);
    let when = steps.contains(Step::When);
    &&& p.id == b.id
    &&& p.name == b.name
    &&& p.destination == b.destination
    &&& p.sources == if what { texts(w.sources@) } else { b.sources }
    &&& p.excludes == if what { texts(w.excludes@) } else { b.excludes }
    &&& p.exclude_patterns == if what { texts(w.patterns@) } else { b.exclude_patterns }
    &&& p.one_file_system == if what { w.one_file_system } else { b.one_file_system }
    &&& p.exclude_caches == if what { w.exclude_caches } else { b.exclude_caches }
    &&& p.git_ignore == if what { w.git_ignore } else { b.git_ignore }
    &&& p.skip_if_unchanged == if what { w.skip_if_unchanged } else { b.skip_if_unchanged }
    &&& p.schedule == if when { w.schedule } else { b.schedule }
    &&& p.retention == if when { w.retention } else { b.retention }
    &&& p.prune == if when { w.prune } else { b.prune }
    &&& p.append_only == b.append_only
    &&& p.bandwidth_limit == b.bandwidth_limit
    &&& p.conditions == b.conditions
    &&& p.hooks == b.hooks
    &&& p.last_success == b.last_success
}

/// `after` and `effects` are what finishing `before` at `now` gives: with
/// no destination known, nothing; otherwise the wizard is busy from `now`
/// and the profile to save goes out, with the password unless the mode
/// edits a profile.
#[verifier::opaque]
pub open spec fn finished(before: Wizard, after: Wizard, effects: Seq<Effect>, now: u64) -> bool {
    match destination_of(before) {
        None => after == before && nothing(effects),
        Some(d) => {
            &&& after == Wizard { busy_since: Some(now), ..before }
            &&& effects.len() == 1
            &&& effects[0] matches Effect::Finish(f) && f.mode == before.mode && f.remember == before.remember
                && saved(f.profile@, before, d) && match f.secret {
                Some(s) => !edits(before.mode) && s@ == before.password@,
                None => edits(before.mode),
            }
        },
    }
}

/// `after` and `effects` are what going on from `before` at `now` gives:
/// the next step, looking up drives and rclone when that is the "where"
/// step; or, from the last step, finishing.
#[verifier::opaque]
pub open spec fn advanced(before: Wizard, after: Wizard, effects: Seq<Effect>, now: u64) -> bool {
    let steps = steps_of(before.mode);
    let position = position_of(before.mode, before.step);
    if position + 1 == steps.len() {
        finished(before, after, effects, now)
    } else {
        let next = steps[position + 1];
        &&& after == Wizard { step: next, ..before }
        &&& if next == Step::Where {
            &&& effects.len() == 2
            &&& effects[0] matches Effect::Place(e) && e is ListDrives
            &&& effects[1] matches Effect::Place(e) && e is CheckRclone
        } else {
            nothing(effects)
        }
    }
}

/// Wraps each of the step's effects as the wizard's.
fn wrap(inner: Vec<place::Effect>) -> (r: Vec<Effect>)
    ensures
        r@ == wrapped(inner@),
{
    let ghost all = inner@;
    let mut inner = inner;
    let mut r: Vec<Effect> = Vec::new();
    let n = inner.len();
    let mut i: usize = 0;
    while i < n
        invariant
            n == all.len(),
            i <= n,
            inner@ == all.subrange(i as int, n as int),
            r@ == wrapped(all.subrange(0, i as int)),
        decreases n - i,
    {
        let e = inner.remove(0);
        r.push(Effect::Place(e));
        assert(all.subrange(0, i + 1) =~= all.subrange(0, i as int).push(all[i as int]));
        assert(inner@ =~= all.subrange(i + 1, n as int));
        assert(wrapped(all.subrange(0, i + 1)) =~= wrapped(all.subrange(0, i as int)).push(
            Effect::Place(all[i as int]),
        ));
        i = i + 1;
    }
    assert(all.subrange(0, n as int) =~= all);
    r
}

impl Wizard {
    fn new(mode: Mode, names: &Names) -> (r: Wizard)
        ensures
            is_fresh(r, mode, *names),
    {
        let steps = mode.steps();
        let step = steps[0];
        Wizard {
            mode,
            step,
            name: String::new(),
            name_chosen: false,
            sources: Vec::new(),
            excludes: Vec::new(),
            patterns: Vec::new(),
            pattern_input: String::new(),
            one_file_system: true,
            exclude_caches: false,
            git_ignore: false,
            skip_if_unchanged: false,
            place: place::Place::new(names.host.as_str(), names.google_drive.as_str()),
            base: None,
            schedule: Schedule::Daily,
            frequency: Schedule::Daily,
            retention: Retention::Smart,
            prune: None,
            append_only: false,
            password: String::new(),
            confirm: String::new(),
            password_hidden: true,
            remember: true,
            estimate: EstimateView {
                generation: 0,
                running: false,
                total: None,
                breakdown: None,
                exclude_sizes: Vec::new(),
            },
            busy_since: None,
            advance_when_checked: false,
            importing: false,
        }
    }

    /// Where the current step stands among the mode's steps.
    fn position(&self) -> (r: usize)
        ensures
            r == position_of(self.mode, self.step),
    {
        match self.mode {
            Mode::Create => match self.step {
                Step::What => 0,
                Step::Where => 1,
                Step::When => 2,
                Step::Secure => 3,
            },
            Mode::Open => match self.step {
                Step::Where => 0,
                Step::When => 1,
                Step::Secure => 2,
                Step::What => 0,
            },
            _ => 0,
        }
    }

    /// Whether the current step is the mode's last.
    fn is_last_step(&self) -> (r: bool)
        ensures
            r == (position_of(self.mode, self.step) + 1 == steps_of(self.mode).len()),
    {
        let steps = self.mode.steps();
        self.position() + 1 == steps.len()
    }

    /// Whether `exclude` takes anything out, i.e. sits inside a source.
    pub fn exclude_applies(&self, exclude: &str) -> (r: bool)
        ensures
            r == applies(texts(self.sources@), exclude@),
    {
        let e = chars_of(exclude);
        let mut i: usize = 0;
        while i < self.sources.len()
            invariant
                i <= self.sources@.len(),
                e@ == exclude@,
                forall|j: int| 0 <= j < i ==> !path_starts_with(exclude@, #[trigger] self.sources@[j]@),
            decreases self.sources@.len() - i,
        {
            let s = chars_of(self.sources[i].as_str());
            if starts_with_path(e.as_slice(), s.as_slice()) {
                assert(texts(self.sources@)[i as int] == self.sources@[i as int]@);
                return true;
            }
            i = i + 1;
        }
        assert forall|j: int| 0 <= j < texts(self.sources@).len() implies !path_starts_with(
            exclude@,
            #[trigger] texts(self.sources@)[j],
        ) by {
            assert(texts(self.sources@)[j] == self.sources@[j]@);
        }
        false
    }

    /// The folders of the exclusions that take something out.
    fn applying_excludes(&self) -> (r: Vec<String>)
        ensures
            texts(r@) == applying(texts(self.excludes@), texts(self.sources@)),
    {
        let mut r: Vec<String> = Vec::new();
        let mut i: usize = 0;
        while i < self.excludes.len()
            invariant
                i <= self.excludes@.len(),
                texts(r@) == applying(texts(self.excludes@.subrange(0, i as int)), texts(self.sources@)),
            decreases self.excludes@.len() - i,
        {
            let applies_here = self.exclude_applies(self.excludes[i].as_str());
            let ghost before = r@;
            assert(texts(self.excludes@.subrange(0, i + 1)).drop_last() =~= texts(
                self.excludes@.subrange(0, i as int),
            ));
            if applies_here {
                r.push(self.excludes[i].clone());
                assert(texts(r@) =~= texts(before).push(self.excludes@[i as int]@));
            }
            i = i + 1;
        }
        assert(self.excludes@.subrange(0, self.excludes@.len() as int) =~= self.excludes@);
        r
    }

    /// What the current lists ask the engine to back up.
    fn request(&self) -> (r: BackupRequest)
        ensures
            requests(r, *self),
    {
        BackupRequest {
            sources: copy_texts(&self.sources),
            excludes: copy_texts(&self.excludes),
            exclude_patterns: copy_texts(&self.patterns),
            exclude_caches: self.exclude_caches,
            git_ignore: self.git_ignore,
            one_file_system: self.one_file_system,
            time: None,
        }
    }

    /// Stop any running estimate and start a new one for the current lists.
    fn restart_estimate(&mut self) -> (r: Vec<Effect>)
        ensures
            restarted(*old(self), *final(self), r@),
            *final(self) == (Wizard { estimate: final(self).estimate, ..*old(self) }),
    {
        proof {
            reveal(restarted);
        }
        let exclude_folders = self.applying_excludes();
        let request = self.request();
        self.estimate.generation = self.estimate.generation.wrapping_add(1);
        self.estimate.running = true;
        self.estimate.breakdown = None;
        self.estimate.exclude_sizes = Vec::new();
        let mut effects: Vec<Effect> = Vec::new();
        effects.push(
            Effect::Estimate { generation: self.estimate.generation, request, exclude_folders },
        );
        effects
    }

    /// A new backup of `home`, with the usual folders left out.
    pub fn create(home: Option<&str>, names: &Names) -> (r: (Wizard, Vec<Effect>))
        ensures
            schedule_in_step(r.0),
            exists|start: Wizard|
                #![trigger is_fresh(start, Mode::Create, *names)]
                is_fresh(start, Mode::Create, *names) && restarted(
                    Wizard { sources: r.0.sources, excludes: r.0.excludes, ..start },
                    r.0,
                    r.1@,
                ),
            texts(r.0.sources@) == match home {
                Some(h) => seq![h@],
                None => Seq::<Seq<char>>::empty(),
            },
            texts(r.0.excludes@) == match home {
                Some(h) => default_excludes_spec(h@),
                None => Seq::<Seq<char>>::empty(),
            },
    {
        let mut wizard = Wizard::new(Mode::Create, names);
        let ghost start = wizard;
        match home {
            Some(h) => {
                let mut sources: Vec<String> = Vec::new();
                sources.push(h.to_owned());
                wizard.sources = sources;
                wizard.excludes = default_excludes(h);
                assert(texts(wizard.sources@) =~= seq![h@]);
                assert(texts(wizard.excludes@) =~= default_excludes_spec(h@));
            },
            None => {
                assert(texts(wizard.sources@) =~= Seq::<Seq<char>>::empty());
                assert(texts(wizard.excludes@) =~= Seq::<Seq<char>>::empty());
            },
        }
        let ghost filled = wizard;
        let effects = wizard.restart_estimate();
        assert(filled == Wizard { sources: wizard.sources, excludes: wizard.excludes, ..start });
        (wizard, effects)
    }

    /// Open a backup that exists: the "where" step first, looking up drives
    /// and rclone.
    pub fn open(names: &Names) -> (r: (Wizard, Vec<Effect>))
        ensures
            schedule_in_step(r.0),
            is_fresh(r.0, Mode::Open, *names),
            r.1@.len() == 2,
            r.1@[0] matches Effect::Place(e) && e is ListDrives,
            r.1@[1] matches Effect::Place(e) && e is CheckRclone,
    {
        let wizard = Wizard::new(Mode::Open, names);
        let effects = wrap(wizard.place.enter());
        (wizard, effects)
    }

    /// Finishing: the repository is being created or opened.
    pub fn busy(&self) -> (r: bool)
        ensures
            r == self.busy_since is Some,
    {
        self.busy_since.is_some()
    }

    /// Something is under way that the wizard shows a running time for:
    /// finishing, or checking the destination as it is now.
    pub fn waiting(&self) -> (r: bool)
        ensures
            r == (self.busy_since is Some || self.place.current_check() is Some),
    {
        self.busy() || self.place.checking_since().is_some()
    }

    /// Stop any running estimate. Called when the wizard is truly
    /// discarded, as opposed to merely hidden while the user looks at
    /// something else ("finish later"), which leaves it running.
    pub fn discard(&self) -> (r: Vec<Effect>)
        ensures
            r@.len() == 1,
            r@[0] is CancelEstimate,
    {
        let mut effects: Vec<Effect> = Vec::new();
        effects.push(Effect::CancelEstimate);
        effects
    }

    /// What the "where" step needs to find at the destination.
    pub fn wanted(&self) -> (r: Probe)
        ensures
            r == wanted(self.mode),
    {
        match self.mode {
            Mode::Open => Probe::Repository,
            _ => Probe::Empty,
        }
    }

    /// The destination has been checked and is what this step needs.
    pub fn place_accepted(&self) -> (r: bool)
        ensures
            r == accepted(self.place, self.mode),
    {
        match self.place.probe() {
            Some(Ok(probe)) => *probe == self.wanted(),
            _ => false,
        }
    }

    /// Whether Next can be pressed.
    pub fn can_advance(&self) -> (r: bool)
        ensures
            r == can_advance_spec(*self),
    {
        if self.busy() {
            return false;
        }
        match self.step {
            Step::What => self.sources.len() > 0,
            Step::Where => {
                let name = trimmed(self.name.as_str());
                if name.as_str().is_empty() || self.place.destination().is_none()
                    || self.place.checking_since().is_some() {
                    return false;
                }
                match self.place.probe() {
                    Some(Ok(_)) => self.place_accepted(),
                    _ => true,
                }
            },
            Step::When => true,
            Step::Secure => match self.mode {
                Mode::Create => !self.password.as_str().is_empty() && self.password == self.confirm,
                _ => !self.password.as_str().is_empty(),
            },
        }
    }

    /// Where the backup will be, as far as is known yet.
    pub fn destination(&self) -> (r: Option<Destination>)
        ensures
            match r {
                Some(d) => destination_of(*self) == Some(d@),
                None => destination_of(*self) is None,
            },
    {
        match self.place.destination() {
            Some(d) => Some(d),
            None => match &self.base {
                Some(base) => Some(base.destination.duplicate()),
                None => None,
            },
        }
    }

    /// Whether freeing space is on: the user's choice, or else the default
    /// for the destination.
    pub fn prune_enabled(&self) -> (r: bool)
        ensures
            r == prunes(*self),
    {
        match self.prune {
            Some(on) => on,
            None => match self.destination() {
                Some(d) => match d {
                    Destination::Local { .. } | Destination::Removable { .. } => true,
                    _ => false,
                },
                None => false,
            },
        }
    }

    /// The labels for the choices of what to keep, plus the current choice
    /// if it is a period the list does not have (an imported Déjà Dup
    /// setting).
    pub fn keep_labels(&self) -> (r: Vec<Phrase>)
        ensures
            r@.len() == if keep_list().contains(self.retention) {
                5int
            } else {
                6int
            },
            forall|i: int| 0 <= i < 5 ==> labels(keep_list()[i], #[trigger] r@[i]),
            !keep_list().contains(self.retention) ==> labels(self.retention, r@[5]),
    {
        let choices = keep_choices();
        let mut r: Vec<Phrase> = Vec::new();
        let mut listed = false;
        let mut i: usize = 0;
        while i < choices.len()
            invariant
                choices@ == keep_list(),
                i <= 5,
                r@.len() == i,
                forall|j: int| 0 <= j < i ==> labels(keep_list()[j], #[trigger] r@[j]),
                listed == exists|j: int| 0 <= j < i && keep_list()[j] == self.retention,
            decreases 5 - i,
        {
            if choices[i] == self.retention {
                listed = true;
            }
            r.push(retention_label(choices[i]));
            i = i + 1;
        }
        if !listed {
            r.push(retention_label(self.retention));
        }
        r
    }

    /// Back up automatically at `schedule`, remembering it as the
    /// frequency to come back to unless it is by hand.
    fn set_schedule(&mut self, schedule: Schedule)
        ensures
            *final(self) == (Wizard {
                schedule,
                frequency: if schedule != Schedule::Manual {
                    schedule
                } else {
                    old(self).frequency
                },
                ..*old(self)
            }),
    {
        self.schedule = schedule;
        if schedule != Schedule::Manual {
            self.frequency = schedule;
        }
    }
}

impl Mode {
    /// A copy of this mode.
    pub fn duplicate(&self) -> (r: Mode)
        ensures
            r == *self,
    {
        match self {
            Mode::Create => Mode::Create,
            Mode::Open => Mode::Open,
            Mode::Edit { profile_id } => Mode::Edit { profile_id: profile_id.clone() },
            Mode::Schedule { profile_id } => Mode::Schedule { profile_id: profile_id.clone() },
        }
    }
}

/// Whether `steps` holds `step`.
fn shows(steps: &Vec<Step>, step: Step) -> (r: bool)
    ensures
        r == steps@.contains(step),
{
    let mut i: usize = 0;
    while i < steps.len()
        invariant
            i <= steps@.len(),
            forall|j: int| 0 <= j < i ==> steps@[j] != step,
        decreases steps@.len() - i,
    {
        if steps[i] == step {
            return true;
        }
        i = i + 1;
    }
    false
}

impl Wizard {
    /// Finish: the profile to save, and the password to create or open the
    /// repository with unless the mode edits a profile.
    fn finish(&mut self, now: u64) -> (r: Vec<Effect>)
        ensures
            finished(*old(self), *final(self), r@, now),
            final(self).place == old(self).place,
            final(self).name == old(self).name,
    {
        proof {
            reveal(finished);
        }
        let destination = match self.destination() {
            Some(d) => d,
            None => return Vec::new(),
        };
        let profile = match &self.base {
            Some(base) => self.edited_profile(base),
            None => self.new_profile(destination),
        };
        let secret = if !self.mode.edits() {
            Some(self.password.clone())
        } else {
            None
        };
        self.busy_since = Some(now);
        let finish = Finish { mode: self.mode.duplicate(), profile, secret, remember: self.remember };
        let mut effects: Vec<Effect> = Vec::new();
        effects.push(Effect::Finish(Box::new(finish)));
        effects
    }

    /// The new profile this wizard describes, kept at `destination`.
    fn new_profile(&self, destination: Destination) -> (r: Profile)
        ensures
            saved_new(r@, *self, destination@),
    {
        let mut profile = Profile::new(
            new_profile_id(),
            trimmed(self.name.as_str()),
            destination,
            copy_texts(&self.sources),
        );
        profile.excludes = copy_texts(&self.excludes);
        profile.exclude_patterns = copy_texts(&self.patterns);
        profile.one_file_system = self.one_file_system;
        profile.exclude_caches = self.exclude_caches;
        profile.git_ignore = self.git_ignore;
        profile.skip_if_unchanged = self.skip_if_unchanged;
        profile.schedule = self.schedule;
        profile.retention = self.retention;
        profile.prune = self.prune;
        profile.append_only = self.append_only;
        profile
    }

    /// `base` with what this wizard's steps showed changed.
    fn edited_profile(&self, base: &Profile) -> (r: Profile)
        ensures
            saved_edit(r@, *self, base@),
    {
        let steps = self.mode.steps();
        let what = shows(&steps, Step::What);
        let when = shows(&steps, Step::When);
        let mut profile = base.duplicate();
        if what {
            profile.sources = copy_texts(&self.sources);
            profile.excludes = copy_texts(&self.excludes);
            profile.exclude_patterns = copy_texts(&self.patterns);
            profile.one_file_system = self.one_file_system;
            profile.exclude_caches = self.exclude_caches;
            profile.git_ignore = self.git_ignore;
            profile.skip_if_unchanged = self.skip_if_unchanged;
        }
        if when {
            profile.schedule = self.schedule;
            profile.retention = self.retention;
            profile.prune = self.prune;
        }
        profile
    }

    /// Go to the next step, or finish on the last.
    fn advance(&mut self, now: u64) -> (r: Vec<Effect>)
        ensures
            advanced(*old(self), *final(self), r@, now),
            final(self).place == old(self).place,
            final(self).name == old(self).name,
    {
        proof {
            reveal(advanced);
        }
        if self.is_last_step() {
            return self.finish(now);
        }
        proof {
            lemma_position_is_the_steps_index(self.mode, self.step);
        }
        let steps = self.mode.steps();
        let position = self.position();
        self.step = steps[position + 1];
        match self.step {
            Step::Where => wrap(self.place.enter()),
            _ => Vec::new(),
        }
    }
}

/// `w` is the wizard in `mode` that starts from `profile`: its name,
/// lists, options, schedule and what it keeps, with the profile kept to
/// save over.
pub open spec fn started_from(w: Wizard, mode: Mode, profile: Profile, names: Names) -> bool {
    &&& exists|start: Wizard|
        #![trigger is_fresh(start, mode, names)]
        {
            &&& is_fresh(start, mode, names)
            &&& w == Wizard {
                name: w.name,
                name_chosen: true,
                sources: w.sources,
                excludes: w.excludes,
                patterns: w.patterns,
                one_file_system: profile.one_file_system,
                exclude_caches: profile.exclude_caches,
                git_ignore: profile.git_ignore,
                skip_if_unchanged: profile.skip_if_unchanged,
                schedule: profile.schedule,
                frequency: if profile.schedule != Schedule::Manual {
                    profile.schedule
                } else {
                    start.frequency
                },
                retention: profile.retention,
                prune: profile.prune,
                base: w.base,
                ..start
            }
        }
    &&& w.name@ == profile.name@
    &&& texts(w.sources@) == texts(profile.sources@)
    &&& texts(w.excludes@) == texts(profile.excludes@)
    &&& texts(w.patterns@) == texts(profile.exclude_patterns@)
    &&& w.base matches Some(b) && b@ == profile@
}

/// `after` and `effects` are the wizard and its effects once the place
/// Déjà Dup recorded, `from`, is filled into the fresh step `before` at
/// `now`: the drives and rclone are looked up first.
pub open spec fn placed(
    before: place::Place,
    from: From,
    after: place::Place,
    effects: Seq<Effect>,
    now: u64,
) -> bool {
    &&& effects.len() >= 2
    &&& effects[0] matches Effect::Place(e) && e is ListDrives
    &&& effects[1] matches Effect::Place(e) && e is CheckRclone
    &&& match from {
        From::Folder(path) => exists|inner: Seq<place::Effect>|
            #[trigger] place::stepped(
                place::Place { kind: Kind::Folder, ..before },
                place::Message::FolderChosen(path),
                after,
                inner,
                now,
            ) && effects.skip(2) == wrapped(inner),
        From::Drive { uuid, folder, .. } => effects.len() == 2 && after == place::Place {
            kind: Kind::Drive,
            preferred_drive: Some(uuid),
            drive_folder: folder,
            ..before
        },
        From::Sftp { host, user, port, path } => effects.len() == 2 && after == place::Place {
            kind: Kind::Server,
            host,
            user,
            port: after.port,
            server_path: path,
            ..before
        } && after.port@ == decimal(port as nat),
        From::Google { folder } => effects.len() == 2 && after == place::Place {
            kind: Kind::Google,
            cloud_path: folder,
            ..before
        },
        From::Rclone { remote, folder } => {
            &&& effects.len() == 3
            &&& effects[2] matches Effect::Place(e) && e is ListRemotes
            &&& after == place::Place {
                kind: Kind::Remote,
                preferred_remote: Some(remote),
                remote_path: folder,
                ..before
            }
        },
        From::Unsupported(_) => effects.len() == 2 && after == before,
    }
}

impl Wizard {
    /// Start from an existing profile, in a mode that edits it.
    fn editing(mode: Mode, profile: &Profile, names: &Names) -> (r: Wizard)
        ensures
            started_from(r, mode, *profile, *names),
    {
        let mut wizard = Wizard::new(mode, names);
        let ghost start = wizard;
        wizard.name = profile.name.clone();
        wizard.name_chosen = true;
        wizard.sources = copy_texts(&profile.sources);
        wizard.excludes = copy_texts(&profile.excludes);
        wizard.patterns = copy_texts(&profile.exclude_patterns);
        wizard.one_file_system = profile.one_file_system;
        wizard.exclude_caches = profile.exclude_caches;
        wizard.git_ignore = profile.git_ignore;
        wizard.skip_if_unchanged = profile.skip_if_unchanged;
        wizard.set_schedule(profile.schedule);
        wizard.retention = profile.retention;
        wizard.prune = profile.prune;
        wizard.base = Some(profile.duplicate());
        assert(is_fresh(start, mode, *names));
        wizard
    }

    /// Change what `profile` backs up; its size is estimated at once.
    pub fn edit(profile: &Profile, names: &Names) -> (r: (Wizard, Vec<Effect>))
        ensures
            schedule_in_step(r.0),
            exists|w: Wizard|
                #![trigger started_from(w, Mode::Edit { profile_id: profile.id }, *profile, *names)]
                started_from(w, Mode::Edit { profile_id: profile.id }, *profile, *names) && restarted(
                    w,
                    r.0,
                    r.1@,
                ),
    {
        let mode = Mode::Edit { profile_id: profile.id.clone() };
        let mut wizard = Wizard::editing(mode, profile, names);
        let ghost w = wizard;
        let effects = wizard.restart_estimate();
        assert(started_from(w, Mode::Edit { profile_id: profile.id }, *profile, *names));
        (wizard, effects)
    }

    /// Change when `profile` runs and what it keeps.
    pub fn schedule(profile: &Profile, names: &Names) -> (r: (Wizard, Vec<Effect>))
        ensures
            schedule_in_step(r.0),
            started_from(r.0, Mode::Schedule { profile_id: profile.id }, *profile, *names),
            r.1@.len() == 0,
    {
        let mode = Mode::Schedule { profile_id: profile.id.clone() };
        let wizard = Wizard::editing(mode, profile, names);
        (wizard, Vec::new())
    }

    /// Open a Déjà Dup backup at `now`: its folders, exclusions, schedule,
    /// what it keeps and its destination come from Déjà Dup's settings; the
    /// password does not.
    pub fn import(import: &Import, names: &Names, now: u64) -> (r: (Wizard, Vec<Effect>))
        ensures
            schedule_in_step(r.0),
            exists|start: Wizard|
                #![trigger is_fresh(start, Mode::Open, *names)]
                {
                    &&& is_fresh(start, Mode::Open, *names)
                    &&& r.0 == Wizard {
                        importing: true,
                        name: r.0.name,
                        name_chosen: true,
                        sources: r.0.sources,
                        excludes: r.0.excludes,
                        schedule: import.schedule,
                        frequency: if import.schedule != Schedule::Manual {
                            import.schedule
                        } else {
                            start.frequency
                        },
                        retention: import.retention,
                        place: r.0.place,
                        ..start
                    }
                    &&& placed(start.place, import.place, r.0.place, r.1@, now)
                },
            r.0.name@ == names.dejadup@,
            texts(r.0.sources@) == texts(import.sources@),
            texts(r.0.excludes@) == texts(import.excludes@),
    {
        let mut wizard = Wizard::new(Mode::Open, names);
        let ghost start = wizard;
        wizard.importing = true;
        wizard.name = names.dejadup.clone();
        wizard.name_chosen = true;
        wizard.sources = copy_texts(&import.sources);
        wizard.excludes = copy_texts(&import.excludes);
        wizard.set_schedule(import.schedule);
        wizard.retention = import.retention;
        let mut effects = wizard.place.enter();
        match &import.place {
            From::Folder(path) => {
                wizard.place.kind = Kind::Folder;
                let ghost chosen = wizard.place;
                let mut more = wizard.place.update(place::Message::FolderChosen(path.clone()), now);
                let ghost inner = more@;
                effects.append(&mut more);
                assert(effects@.skip(2) =~= inner);
                assert(place::stepped(
                    place::Place { kind: Kind::Folder, ..start.place },
                    place::Message::FolderChosen(*path),
                    wizard.place,
                    inner,
                    now,
                ));
                let all = wrap(effects);
                assert(all@.skip(2) =~= wrapped(inner));
                assert(is_fresh(start, Mode::Open, *names));
                return (wizard, all);
            },
            From::Drive { uuid, folder, .. } => {
                wizard.place.kind = Kind::Drive;
                wizard.place.preferred_drive = Some(uuid.clone());
                wizard.place.drive_folder = folder.clone();
            },
            From::Sftp { host, user, port, path } => {
                wizard.place.kind = Kind::Server;
                wizard.place.host = host.clone();
                wizard.place.user = user.clone();
                wizard.place.port = string_of(decimal_chars(*port as u64).as_slice());
                wizard.place.server_path = path.clone();
            },
            From::Google { folder } => {
                wizard.place.kind = Kind::Google;
                wizard.place.cloud_path = folder.clone();
            },
            From::Rclone { remote, folder } => {
                wizard.place.kind = Kind::Remote;
                wizard.place.preferred_remote = Some(remote.clone());
                wizard.place.remote_path = folder.clone();
                effects.push(place::Effect::ListRemotes);
            },
            From::Unsupported(_) => {},
        }
        assert(is_fresh(start, Mode::Open, *names));
        (wizard, wrap(effects))
    }
}

/// What reaches the wizard.
#[derive(Debug)]
pub enum Message {
    AddSources,
    SourcesChosen(Vec<String>),
    RemoveSource(usize),
    AddExcludes,
    ExcludesChosen(Vec<String>),
    RemoveExclude(usize),
    PatternInput(String),
    AddPattern,
    RemovePattern(usize),
    OneFileSystem(bool),
    ExcludeCaches(bool),
    GitIgnore(bool),
    SkipIfUnchanged(bool),
    Estimate(u64, EstimateEvent),
    Name(String),
    Place(place::Message),
    Password(String),
    Confirm(String),
    TogglePasswordVisible,
    Remember(bool),
    Automatic(bool),
    Frequency(usize),
    Keep(usize),
    Prune(bool),
    AppendOnly(bool),
    Back,
    Next,
    Cancel,
    /// The repository was created or opened (or that failed).
    Finished(Result<(), EngineError>),
}

/// Whether `list` holds the path `p`, compared by components as `Path`'s
/// `==` does (so `/data/` is the same path as `/data`).
pub open spec fn has_path(list: Seq<Seq<char>>, p: Seq<char>) -> bool {
    exists|j: int| 0 <= j < list.len() && same_path(#[trigger] list[j], p)
}

/// `list` with each path of `new` added that it does not hold yet, in order.
pub open spec fn added(list: Seq<Seq<char>>, new: Seq<Seq<char>>) -> Seq<Seq<char>>
    decreases new.len(),
{
    if new.len() == 0 {
        list
    } else {
        let so_far = added(list, new.drop_last());
        if has_path(so_far, new.last()) {
            so_far
        } else {
            so_far.push(new.last())
        }
    }
}

/// No two entries of `list` are the same path.
pub open spec fn distinct_paths(list: Seq<Seq<char>>) -> bool {
    forall|i: int, j: int|
        0 <= i < list.len() && 0 <= j < list.len() && i != j ==> !same_path(#[trigger] list[i], #[trigger] list[j])
}

/// Choosing folders never lists the same folder twice: adding paths to a
/// list without repeats leaves none, and the list then holds each path
/// chosen, after what it held before.
pub proof fn lemma_chosen_folders_are_listed_once(list: Seq<Seq<char>>, new: Seq<Seq<char>>)
    requires
        distinct_paths(list),
    ensures
        distinct_paths(added(list, new)),
        list.len() <= added(list, new).len(),
        added(list, new).subrange(0, list.len() as int) == list,
        forall|k: int| 0 <= k < new.len() ==> has_path(added(list, new), #[trigger] new[k]),
    decreases new.len(),
{
    if new.len() > 0 {
        let rest = new.drop_last();
        lemma_chosen_folders_are_listed_once(list, rest);
        let so_far = added(list, rest);
        let x = new.last();
        if has_path(so_far, x) {
            assert forall|k: int| 0 <= k < new.len() implies has_path(added(list, new), #[trigger] new[k]) by {
                if k < rest.len() {
                    assert(new[k] == rest[k]);
                }
            }
        } else {
            let r = so_far.push(x);
            assert(added(list, new) == r);
            assert forall|i: int, j: int| 0 <= i < r.len() && 0 <= j < r.len() && i != j implies !same_path(
                #[trigger] r[i],
                #[trigger] r[j],
            ) by {
                if i == so_far.len() {
                    assert(r[j] == so_far[j]);
                    if same_path(r[i], r[j]) {
                        assert(same_path(so_far[j], x));
                    }
                } else if j == so_far.len() {
                    assert(r[i] == so_far[i]);
                    if same_path(r[i], r[j]) {
                        assert(same_path(so_far[i], x));
                    }
                } else {
                    assert(r[i] == so_far[i] && r[j] == so_far[j]);
                }
            }
            assert(r.subrange(0, list.len() as int) =~= so_far.subrange(0, list.len() as int));
            assert forall|k: int| 0 <= k < new.len() implies has_path(r, #[trigger] new[k]) by {
                if k < rest.len() {
                    assert(new[k] == rest[k]);
                    let j = choose|j: int| 0 <= j < so_far.len() && same_path(#[trigger] so_far[j], rest[k]);
                    assert(r[j] == so_far[j]);
                } else {
                    assert(r[so_far.len() as int] == x);
                    assert(same_path(r[so_far.len() as int], x));
                }
            }
        }
    }
}

/// `list` without its entry `index`, if it has one.
pub open spec fn removed(list: Seq<Seq<char>>, index: usize) -> Seq<Seq<char>> {
    if index < list.len() {
        list.remove(index as int)
    } else {
        list
    }
}

/// Whether `list` holds `text`.
fn holds(list: &Vec<String>, text: &String) -> (r: bool)
    ensures
        r == texts(list@).contains(text@),
{
    let mut i: usize = 0;
    while i < list.len()
        invariant
            i <= list@.len(),
            forall|j: int| 0 <= j < i ==> list@[j]@ != text@,
        decreases list@.len() - i,
    {
        if list[i] == *text {
            assert(texts(list@)[i as int] == text@);
            return true;
        }
        i = i + 1;
    }
    assert forall|j: int| 0 <= j < texts(list@).len() implies texts(list@)[j] != text@ by {
        assert(texts(list@)[j] == list@[j]@);
    }
    false
}

/// Whether `list` holds the path `text`, by components.
fn holds_path(list: &Vec<String>, text: &String) -> (r: bool)
    ensures
        r == has_path(texts(list@), text@),
{
    let p = chars_of(text.as_str());
    let mut i: usize = 0;
    while i < list.len()
        invariant
            i <= list@.len(),
            p@ == text@,
            forall|j: int| 0 <= j < i ==> !same_path(#[trigger] texts(list@)[j], text@),
        decreases list@.len() - i,
    {
        let q = chars_of(list[i].as_str());
        assert(texts(list@)[i as int] == list@[i as int]@);
        if same_path_chars(&q, &p) {
            return true;
        }
        i = i + 1;
    }
    false
}

/// Adds each path of `new` that `list` does not hold yet.
fn add_texts(list: &mut Vec<String>, new: Vec<String>)
    ensures
        texts(final(list)@) == added(texts(old(list)@), texts(new@)),
{
    let mut i: usize = 0;
    assert(texts(new@.subrange(0, 0)) =~= Seq::<Seq<char>>::empty());
    while i < new.len()
        invariant
            i <= new@.len(),
            texts(list@) == added(texts(old(list)@), texts(new@.subrange(0, i as int))),
        decreases new@.len() - i,
    {
        assert(texts(new@.subrange(0, i + 1)).drop_last() =~= texts(new@.subrange(0, i as int)));
        assert(texts(new@.subrange(0, i + 1)).last() == new@[i as int]@);
        if !holds_path(list, &new[i]) {
            let ghost before = list@;
            list.push(new[i].clone());
            assert(texts(list@) =~= texts(before).push(new@[i as int]@));
        }
        i = i + 1;
    }
    assert(new@.subrange(0, new@.len() as int) =~= new@);
}

/// Removes the entry `index` of `list`, if it has one.
fn remove_text(list: &mut Vec<String>, index: usize)
    ensures
        texts(final(list)@) == removed(texts(old(list)@), index),
{
    if index < list.len() {
        let ghost before = list@;
        list.remove(index);
        assert(texts(list@) =~= texts(before).remove(index as int));
    }
}

/// The sizes of excluded folders, as plain values.
pub open spec fn sizes(v: Seq<(String, u64)>) -> Seq<(Seq<char>, u64)> {
    v.map_values(|p: (String, u64)| (p.0@, p.1))
}

/// Each of `folders` with its size in `per_folder`, as far as both go.
pub open spec fn zipped(folders: Seq<Seq<char>>, per_folder: Seq<u64>) -> Seq<(Seq<char>, u64)> {
    let n = if folders.len() < per_folder.len() {
        folders.len()
    } else {
        per_folder.len()
    };
    Seq::new(n, |i: int| (folders[i], per_folder[i]))
}

/// What an estimate's `event` makes of `before`: events of an older
/// generation are ignored; progress and the end set the total; the
/// breakdown ends the walk with the sizes of the excluded folders; a
/// failure ends it.
#[verifier::opaque]
pub open spec fn estimated(before: Wizard, generation: u64, event: EstimateEvent, after: Wizard) -> bool {
    if generation != before.estimate.generation {
        after == before
    } else {
        match event {
            EstimateEvent::Progress(total) => after == Wizard {
                estimate: EstimateView { total: Some(total), ..before.estimate },
                ..before
            },
            EstimateEvent::Done(total) => after == Wizard {
                estimate: EstimateView { total: Some(total), ..before.estimate },
                ..before
            },
            EstimateEvent::Breakdown(folders, breakdown) => {
                &&& after == Wizard {
                    estimate: EstimateView {
                        breakdown: Some(breakdown),
                        running: false,
                        exclude_sizes: after.estimate.exclude_sizes,
                        ..before.estimate
                    },
                    ..before
                }
                &&& sizes(after.estimate.exclude_sizes@) == zipped(texts(folders@), breakdown.per_folder@)
            },
            EstimateEvent::Failed(_) => after == Wizard {
                estimate: EstimateView { running: false, ..before.estimate },
                ..before
            },
        }
    }
}

/// The pattern typed is added, once, and the estimate starts again; the
/// field is emptied either way.
#[verifier::opaque]
pub open spec fn pattern_added(before: Wizard, after: Wizard, effects: Seq<Effect>) -> bool {
    let pattern = trim(before.pattern_input@);
    let cleared = Wizard { pattern_input: after.pattern_input, ..before };
    &&& after.pattern_input@.len() == 0
    &&& if pattern.len() == 0 || texts(before.patterns@).contains(pattern) {
        after == cleared && nothing(effects)
    } else {
        &&& texts(after.patterns@) == texts(before.patterns@).push(pattern)
        &&& restarted(Wizard { patterns: after.patterns, ..cleared }, after, effects)
    }
}

/// The name once the "where" step holds `place`: it follows the
/// destination until one is chosen.
pub open spec fn name_after(before: Wizard, place: place::Place) -> Seq<char> {
    match place.suggestion() {
        Some(n) => if !before.name_chosen {
            n
        } else {
            before.name@
        },
        None => before.name@,
    }
}

/// A check Next started that has ended moves on, after `head`, if it found
/// what is needed.
pub open spec fn settled(moved: Wizard, after: Wizard, head: Seq<Effect>, effects: Seq<Effect>, now: u64) -> bool {
    if moved.advance_when_checked && moved.place.current_check() is None {
        let cleared = Wizard { advance_when_checked: false, ..moved };
        if moved.step == Step::Where && accepted(moved.place, moved.mode) {
            &&& effects.subrange(0, head.len() as int) == head
            &&& advanced(cleared, after, effects.subrange(head.len() as int, effects.len() as int), now)
        } else {
            after == cleared && effects == head
        }
    } else {
        after == moved && effects == head
    }
}

/// Once the "where" step took a message and gave `inner`: the name follows
/// the destination until one is chosen; a check Next started that has
/// ended moves on if it found what is needed.
pub open spec fn followed(
    before: Wizard,
    inner: Seq<place::Effect>,
    after: Wizard,
    effects: Seq<Effect>,
    now: u64,
) -> bool {
    &&& after.name@ == name_after(before, after.place)
    &&& settled(Wizard { place: after.place, name: after.name, ..before }, after, wrapped(inner), effects, now)
}

/// The "where" step takes `message` at `now`, and the wizard follows.
#[verifier::opaque]
pub open spec fn place_stepped(
    before: Wizard,
    message: place::Message,
    after: Wizard,
    effects: Seq<Effect>,
    now: u64,
) -> bool {
    exists|inner: Seq<place::Effect>|
        #[trigger] place::stepped(before.place, message, after.place, inner, now) && followed(
            before,
            inner,
            after,
            effects,
            now,
        )
}

/// Next: nothing when it cannot be pressed; on the "where" step, before the
/// destination is accepted, a check that moves on by itself when it finds
/// what is needed; otherwise the next step, or finishing.
#[verifier::opaque]
pub open spec fn went_next(before: Wizard, after: Wizard, effects: Seq<Effect>, now: u64) -> bool {
    if !can_advance_spec(before) {
        after == before && nothing(effects)
    } else if before.step == Step::Where && !accepted(before.place, before.mode) {
        exists|inner: Seq<place::Effect>|
            #[trigger] checked(before.place, after.place, inner, now) && after == Wizard {
                advance_when_checked: true,
                place: after.place,
                ..before
            } && effects == wrapped(inner)
    } else {
        advanced(before, after, effects, now)
    }
}

/// The schedule and the frequency are in step: the frequency is how often
/// automatic backups run, never by hand, and automatic backups, when on,
/// run at it.
pub open spec fn schedule_in_step(w: Wizard) -> bool {
    &&& w.frequency != Schedule::Manual
    &&& w.schedule == Schedule::Manual || w.schedule == w.frequency
}

/// `after` and `effects` are what `message` at `now` makes of `before`.
pub open spec fn stepped(before: Wizard, message: Message, after: Wizard, effects: Seq<Effect>, now: u64) -> bool {
    match message {
        Message::AddSources => after == before && effects.len() == 1 && effects[0]
            == Effect::PickFolders { excludes: false },
        Message::AddExcludes => after == before && effects.len() == 1 && effects[0]
            == Effect::PickFolders { excludes: true },
        Message::SourcesChosen(paths) => texts(after.sources@) == added(texts(before.sources@), texts(paths@))
            && restarted(Wizard { sources: after.sources, ..before }, after, effects),
        Message::ExcludesChosen(paths) => texts(after.excludes@) == added(
            texts(before.excludes@),
            texts(paths@),
        ) && restarted(Wizard { excludes: after.excludes, ..before }, after, effects),
        Message::RemoveSource(index) => texts(after.sources@) == removed(texts(before.sources@), index)
            && restarted(Wizard { sources: after.sources, ..before }, after, effects),
        Message::RemoveExclude(index) => texts(after.excludes@) == removed(texts(before.excludes@), index)
            && restarted(Wizard { excludes: after.excludes, ..before }, after, effects),
        Message::PatternInput(text) => after == Wizard { pattern_input: text, ..before } && nothing(effects),
        Message::AddPattern => pattern_added(before, after, effects),
        Message::RemovePattern(index) => texts(after.patterns@) == removed(texts(before.patterns@), index)
            && restarted(Wizard { patterns: after.patterns, ..before }, after, effects),
        Message::OneFileSystem(on) => restarted(Wizard { one_file_system: on, ..before }, after, effects),
        Message::ExcludeCaches(on) => restarted(Wizard { exclude_caches: on, ..before }, after, effects),
        Message::GitIgnore(on) => restarted(Wizard { git_ignore: on, ..before }, after, effects),
        Message::SkipIfUnchanged(on) => after == Wizard { skip_if_unchanged: on, ..before } && nothing(
            effects,
        ),
        Message::Estimate(generation, event) => estimated(before, generation, event, after) && nothing(
            effects,
        ),
        Message::Name(name) => after == Wizard { name_chosen: trim(name@).len() > 0, name, ..before }
            && nothing(effects),
        Message::Place(message) => place_stepped(before, message, after, effects, now),
        Message::Password(password) => after == Wizard { password, ..before } && nothing(effects),
        Message::Confirm(confirm) => after == Wizard { confirm, ..before } && nothing(effects),
        Message::TogglePasswordVisible => after == Wizard { password_hidden: !before.password_hidden, ..before }
            && nothing(effects),
        Message::Remember(remember) => after == Wizard { remember, ..before } && nothing(effects),
        Message::Automatic(on) => after == Wizard {
            schedule: if on {
                before.frequency
            } else {
                Schedule::Manual
            },
            ..before
        } && nothing(effects),
        Message::Frequency(index) => nothing(effects) && if index < frequency_list().len() {
            after == Wizard {
                schedule: frequency_list()[index as int],
                frequency: frequency_list()[index as int],
                ..before
            }
        } else {
            after == before
        },
        Message::Keep(index) => nothing(effects) && if index < keep_list().len() {
            after == Wizard { retention: keep_list()[index as int], ..before }
        } else {
            after == before
        },
        Message::Prune(on) => after == Wizard { prune: Some(on), ..before } && nothing(effects),
        Message::AppendOnly(on) => after == Wizard { append_only: on, ..before } && nothing(effects),
        Message::Back => nothing(effects) && {
            let position = position_of(before.mode, before.step);
            if position > 0 {
                after == Wizard { step: steps_of(before.mode)[position - 1], ..before }
            } else {
                after == before
            }
        },
        Message::Next => went_next(before, after, effects, now),
        Message::Cancel => after == before && effects.len() == 1 && effects[0] is ConfirmCancel,
        Message::Finished(result) => after == Wizard { busy_since: None, ..before } && match result {
            Ok(_) => effects.len() == 2 && effects[0] is CancelEstimate && effects[1] is Close,
            Err(_) => nothing(effects),
        },
    }
}

/// A single effect.
fn only(effect: Effect) -> (r: Vec<Effect>)
    ensures
        r@.len() == 1,
        r@[0] == effect,
{
    let mut effects: Vec<Effect> = Vec::new();
    effects.push(effect);
    effects
}

/// Each of `folders` with its size in `per_folder`, as far as both go.
fn zip_sizes(folders: &Vec<String>, per_folder: &Vec<u64>) -> (r: Vec<(String, u64)>)
    ensures
        sizes(r@) == zipped(texts(folders@), per_folder@),
{
    let n = if folders.len() < per_folder.len() {
        folders.len()
    } else {
        per_folder.len()
    };
    let mut r: Vec<(String, u64)> = Vec::new();
    let mut i: usize = 0;
    while i < n
        invariant
            n <= folders@.len(),
            n <= per_folder@.len(),
            i <= n,
            r@.len() == i,
            forall|j: int|
                0 <= j < i ==> (#[trigger] r@[j]).0@ == folders@[j]@ && r@[j].1 == per_folder@[j],
        decreases n - i,
    {
        r.push((folders[i].clone(), per_folder[i]));
        i = i + 1;
    }
    assert(sizes(r@) =~= zipped(texts(folders@), per_folder@));
    r
}

impl Wizard {
    fn choose_sources(&mut self, paths: Vec<String>) -> (r: Vec<Effect>)
        ensures
            texts(final(self).sources@) == added(texts(old(self).sources@), texts(paths@)),
            restarted(Wizard { sources: final(self).sources, ..*old(self) }, *final(self), r@),
    {
        add_texts(&mut self.sources, paths);
        self.restart_estimate()
    }

    fn choose_excludes(&mut self, paths: Vec<String>) -> (r: Vec<Effect>)
        ensures
            texts(final(self).excludes@) == added(texts(old(self).excludes@), texts(paths@)),
            restarted(Wizard { excludes: final(self).excludes, ..*old(self) }, *final(self), r@),
    {
        add_texts(&mut self.excludes, paths);
        self.restart_estimate()
    }

    fn remove_source(&mut self, index: usize) -> (r: Vec<Effect>)
        ensures
            texts(final(self).sources@) == removed(texts(old(self).sources@), index),
            restarted(Wizard { sources: final(self).sources, ..*old(self) }, *final(self), r@),
    {
        remove_text(&mut self.sources, index);
        self.restart_estimate()
    }

    fn remove_exclude(&mut self, index: usize) -> (r: Vec<Effect>)
        ensures
            texts(final(self).excludes@) == removed(texts(old(self).excludes@), index),
            restarted(Wizard { excludes: final(self).excludes, ..*old(self) }, *final(self), r@),
    {
        remove_text(&mut self.excludes, index);
        self.restart_estimate()
    }

    fn remove_pattern(&mut self, index: usize) -> (r: Vec<Effect>)
        ensures
            texts(final(self).patterns@) == removed(texts(old(self).patterns@), index),
            restarted(Wizard { patterns: final(self).patterns, ..*old(self) }, *final(self), r@),
    {
        remove_text(&mut self.patterns, index);
        self.restart_estimate()
    }

    #[verifier::spinoff_prover]
    #[verifier::rlimit(30)]
    fn add_pattern(&mut self) -> (r: Vec<Effect>)
        ensures
            pattern_added(*old(self), *final(self), r@),
    {
        proof {
            reveal(pattern_added);
        }
        let pattern = trimmed(self.pattern_input.as_str());
        self.pattern_input = String::new();
        if pattern.as_str().is_empty() || holds(&self.patterns, &pattern) {
            return Vec::new();
        }
        let ghost before = self.patterns@;
        self.patterns.push(pattern);
        assert(texts(self.patterns@) =~= texts(before).push(pattern@));
        self.restart_estimate()
    }

    fn take_estimate(&mut self, generation: u64, event: EstimateEvent)
        ensures
            estimated(*old(self), generation, event, *final(self)),
    {
        proof {
            reveal(estimated);
        }
        if generation != self.estimate.generation {
            return;
        }
        match event {
            EstimateEvent::Progress(total) => self.estimate.total = Some(total),
            EstimateEvent::Done(total) => self.estimate.total = Some(total),
            EstimateEvent::Breakdown(folders, breakdown) => {
                self.estimate.exclude_sizes = zip_sizes(&folders, &breakdown.per_folder);
                self.estimate.breakdown = Some(breakdown);
                self.estimate.running = false;
            },
            EstimateEvent::Failed(_) => self.estimate.running = false,
        }
    }

    /// The name follows the destination until one is chosen.
    fn rename(&mut self)
        ensures
            *final(self) == (Wizard { name: final(self).name, ..*old(self) }),
            final(self).name@ == name_after(*old(self), old(self).place),
    {
        if !self.name_chosen {
            match self.place.suggested_name() {
                Some(name) => self.name = name,
                None => {},
            }
        }
    }

    /// A check Next started that has ended moves on if it found what is
    /// needed; its effects follow `head`.
    fn settle(&mut self, head: Vec<Effect>, now: u64) -> (r: Vec<Effect>)
        ensures
            settled(*old(self), *final(self), head@, r@, now),
            final(self).place == old(self).place,
            final(self).name == old(self).name,
    {
        let mut effects = head;
        if self.advance_when_checked && self.place.checking_since().is_none() {
            self.advance_when_checked = false;
            if self.step == Step::Where && self.place_accepted() {
                let ghost first = effects@;
                let mut more = self.advance(now);
                let ghost tail = more@;
                effects.append(&mut more);
                assert(effects@.subrange(0, first.len() as int) =~= first);
                assert(effects@.subrange(first.len() as int, effects@.len() as int) =~= tail);
            }
        }
        effects
    }

    /// Follows what the "where" step did, given the effects it asked for.
    fn follow(&mut self, inner: Vec<place::Effect>, now: u64) -> (r: Vec<Effect>)
        ensures
            followed(*old(self), inner@, *final(self), r@, now),
            final(self).place == old(self).place,
    {
        self.rename();
        let head = wrap(inner);
        self.settle(head, now)
    }

    fn update_place(&mut self, message: place::Message, now: u64) -> (r: Vec<Effect>)
        ensures
            place_stepped(*old(self), message, *final(self), r@, now),
    {
        proof {
            reveal(place_stepped);
        }
        let ghost before = *self;
        let ghost m = message;
        let inner = self.place.update(message, now);
        let ghost inner_seq = inner@;
        let ghost mid = *self;
        let effects = self.follow(inner, now);
        assert(Wizard { place: self.place, name: self.name, ..mid } == Wizard {
            place: self.place,
            name: self.name,
            ..before
        });
        assert(followed(before, inner_seq, *self, effects@, now));
        assert(place::stepped(before.place, m, self.place, inner_seq, now));
        effects
    }

    fn next(&mut self, now: u64) -> (r: Vec<Effect>)
        ensures
            went_next(*old(self), *final(self), r@, now),
    {
        proof {
            reveal(went_next);
        }
        if !self.can_advance() {
            return Vec::new();
        }
        if self.step == Step::Where && !self.place_accepted() {
            self.advance_when_checked = true;
            let ghost before = self.place;
            let inner = self.place.check(now);
            let ghost inner_seq = inner@;
            let effects = wrap(inner);
            assert(checked(before, self.place, inner_seq, now));
            return effects;
        }
        self.advance(now)
    }

    fn back(&mut self)
        ensures
            ({
                let position = position_of(old(self).mode, old(self).step);
                if position > 0 {
                    *final(self) == Wizard { step: steps_of(old(self).mode)[position - 1], ..*old(self) }
                } else {
                    *final(self) == *old(self)
                }
            }),
    {
        proof {
            lemma_position_is_the_steps_index(self.mode, self.step);
        }
        let position = self.position();
        if position > 0 {
            let steps = self.mode.steps();
            self.step = steps[position - 1];
        }
    }

    /// The messages that change the lists of folders and patterns.
    fn update_lists(&mut self, message: Message, now: u64) -> (r: Vec<Effect>)
        requires
            message is AddSources || message is AddExcludes || message is SourcesChosen || message is ExcludesChosen || message is RemoveSource || message is RemoveExclude || message is PatternInput || message is AddPattern || message is RemovePattern || message is OneFileSystem || message is ExcludeCaches || message is GitIgnore,
        ensures
            stepped(*old(self), message, *final(self), r@, now),
    {
        match message {
            Message::AddSources => only(Effect::PickFolders { excludes: false }),
            Message::AddExcludes => only(Effect::PickFolders { excludes: true }),
            Message::SourcesChosen(paths) => self.choose_sources(paths),
            Message::ExcludesChosen(paths) => self.choose_excludes(paths),
            Message::RemoveSource(index) => self.remove_source(index),
            Message::RemoveExclude(index) => self.remove_exclude(index),
            Message::PatternInput(text) => {
                self.pattern_input = text;
                Vec::new()
            },
            Message::AddPattern => self.add_pattern(),
            Message::RemovePattern(index) => self.remove_pattern(index),
            Message::OneFileSystem(on) => {
                self.one_file_system = on;
                self.restart_estimate()
            },
            Message::ExcludeCaches(on) => {
                self.exclude_caches = on;
                self.restart_estimate()
            },
            Message::GitIgnore(on) => {
                self.git_ignore = on;
                self.restart_estimate()
            },
            _ => Vec::new(),
        }
    }

    /// The messages that set an option.
    fn update_options(&mut self, message: Message, now: u64) -> (r: Vec<Effect>)
        requires
            message is SkipIfUnchanged || message is Estimate || message is Name || message is Password || message is Confirm || message is TogglePasswordVisible || message is Remember || message is Automatic || message is Frequency || message is Keep || message is Prune || message is AppendOnly,
        ensures
            stepped(*old(self), message, *final(self), r@, now),
    {
        match message {
            Message::SkipIfUnchanged(on) => self.skip_if_unchanged = on,
            Message::Estimate(generation, event) => self.take_estimate(generation, event),
            Message::Name(name) => {
                self.name_chosen = !trimmed(name.as_str()).as_str().is_empty();
                self.name = name;
            },
            Message::Password(password) => self.password = password,
            Message::Confirm(confirm) => self.confirm = confirm,
            Message::TogglePasswordVisible => self.password_hidden = !self.password_hidden,
            Message::Remember(remember) => self.remember = remember,
            Message::Automatic(on) => {
                self.schedule = if on {
                    self.frequency
                } else {
                    Schedule::Manual
                };
            },
            Message::Frequency(index) => {
                let choices = frequencies();
                if index < choices.len() {
                    self.set_schedule(choices[index]);
                }
            },
            Message::Keep(index) => {
                let choices = keep_choices();
                if index < choices.len() {
                    self.retention = choices[index];
                }
            },
            Message::Prune(on) => self.prune = Some(on),
            Message::AppendOnly(on) => self.append_only = on,
            _ => {},
        }
        Vec::new()
    }

    /// The wizard's answer to `message`, at `now`.
    pub fn update(&mut self, message: Message, now: u64) -> (r: Vec<Effect>)
        ensures
            stepped(*old(self), message, *final(self), r@, now),
            schedule_in_step(*old(self)) ==> schedule_in_step(*final(self)),
    {
        let ghost before = *self;
        let ghost m = message;
        let r = match message {
            Message::Place(message) => self.update_place(message, now),
            Message::Back => {
                self.back();
                Vec::new()
            },
            Message::Next => self.next(now),
            Message::Cancel => only(Effect::ConfirmCancel),
            Message::Finished(result) => {
                self.busy_since = None;
                match result {
                    Ok(()) => {
                        let mut effects: Vec<Effect> = Vec::new();
                        effects.push(Effect::CancelEstimate);
                        effects.push(Effect::Close);
                        effects
                    },
                    Err(_) => Vec::new(),
                }
            },
            Message::AddSources | Message::AddExcludes | Message::SourcesChosen(_)
            | Message::ExcludesChosen(_) | Message::RemoveSource(_) | Message::RemoveExclude(_)
            | Message::PatternInput(_) | Message::AddPattern | Message::RemovePattern(_)
            | Message::OneFileSystem(_) | Message::ExcludeCaches(_) | Message::GitIgnore(_) => self.update_lists(
                message,
                now,
            ),
            _ => self.update_options(message, now),
        };
        proof {
            if schedule_in_step(before) {
                lemma_the_schedule_stays_in_step(before, m, *self, r@, now);
            }
        }
        r
    }
}

/// Estimates from an older generation are ignored: whatever such an event
/// says, the wizard stays as it was.
pub proof fn lemma_stale_estimates_are_ignored(
    before: Wizard,
    generation: u64,
    event: EstimateEvent,
    after: Wizard,
    effects: Seq<Effect>,
    now: u64,
)
    requires
        stepped(before, Message::Estimate(generation, event), after, effects, now),
        generation != before.estimate.generation,
    ensures
        after == before,
        nothing(effects),
{
    reveal(estimated);
}

/// Every change to the lists starts a new estimate, whose generation
/// differs from the one before, so what the old walk still reports is
/// ignored.
pub proof fn lemma_a_new_list_starts_a_new_generation(before: Wizard, after: Wizard, effects: Seq<Effect>)
    requires
        restarted(before, after, effects),
    ensures
        after.estimate.generation != before.estimate.generation,
        after.estimate.running,
        effects.len() == 1,
        effects[0] matches Effect::Estimate { generation, .. } && generation == after.estimate.generation,
{
    reveal(restarted);
}

/// Next does nothing while it cannot be pressed: on the "what" step
/// without a source, while finishing, or on the "secure" step of a new
/// backup until the password is typed twice alike.
pub proof fn lemma_next_waits_until_it_can_advance(
    before: Wizard,
    after: Wizard,
    effects: Seq<Effect>,
    now: u64,
)
    requires
        stepped(before, Message::Next, after, effects, now),
        !can_advance_spec(before),
    ensures
        after == before,
        nothing(effects),
{
    reveal(went_next);
}

/// What Next asks of each step: a source on the "what" step; nothing while
/// finishing; on the "secure" step of a new backup a password typed twice
/// alike, and of an opened one a password.
pub proof fn lemma_what_next_asks(w: Wizard)
    ensures
        w.busy_since is Some ==> !can_advance_spec(w),
        w.busy_since is None && w.step == Step::What ==> (can_advance_spec(w) <==> w.sources@.len() > 0),
        w.busy_since is None && w.step == Step::Secure && w.mode == Mode::Create ==> (can_advance_spec(w)
            <==> w.password@.len() > 0 && w.password@ == w.confirm@),
        w.busy_since is None && w.step == Step::Where && w.place.current_probe() == Some(
            Ok::<Probe, EngineError>(Probe::NotEmpty),
        ) ==> !can_advance_spec(w),
{
}

/// Finishing a wizard that edits a profile keeps the profile's identity
/// and destination and sends no password; editing when it runs changes
/// nothing of what it backs up, and editing what it backs up changes
/// nothing of when it runs or what it keeps.
pub proof fn lemma_an_edit_changes_only_what_its_steps_show(
    before: Wizard,
    after: Wizard,
    effects: Seq<Effect>,
    now: u64,
)
    requires
        finished(before, after, effects, now),
        before.base is Some,
        edits(before.mode),
    ensures
        effects.len() == 1,
        effects[0] matches Effect::Finish(f) && {
            let b = before.base.unwrap()@;
            let p = f.profile@;
            &&& f.secret is None
            &&& p.id == b.id && p.name == b.name && p.destination == b.destination
            &&& p.conditions == b.conditions && p.hooks == b.hooks && p.last_success == b.last_success
            &&& before.mode is Schedule ==> p.sources == b.sources && p.excludes == b.excludes
                && p.exclude_patterns == b.exclude_patterns && p.schedule == before.schedule
                && p.retention == before.retention && p.prune == before.prune
            &&& before.mode is Edit ==> p.schedule == b.schedule && p.retention == b.retention
                && p.prune == b.prune && p.sources == texts(before.sources@)
        },
{
    reveal(finished);
    assert(destination_of(before) is Some);
    let steps = steps_of(before.mode);
    if before.mode is Schedule {
        assert(!steps.contains(Step::What)) by {
            assert(steps =~= seq![Step::When]);
        }
        assert(steps.contains(Step::When)) by {
            assert(steps[0] == Step::When);
        }
    } else {
        assert(steps.contains(Step::What)) by {
            assert(steps[0] == Step::What);
        }
        assert(!steps.contains(Step::When)) by {
            assert(steps =~= seq![Step::What]);
        }
    }
}

/// A backup needs a name: on the "where" step, Next stays blocked while the
/// name is blank (empty, or white space only), whatever the destination.
pub proof fn lemma_a_blank_name_blocks_the_where_step(w: Wizard)
    requires
        w.step == Step::Where,
        forall|i: int| 0 <= i < w.name@.len() ==> is_space(#[trigger] w.name@[i]),
    ensures
        !can_advance_spec(w),
{
    lemma_blank_trims_to_nothing(w.name@);
}

/// Every message keeps the schedule and the frequency in step.
pub proof fn lemma_the_schedule_stays_in_step(
    before: Wizard,
    message: Message,
    after: Wizard,
    effects: Seq<Effect>,
    now: u64,
)
    requires
        stepped(before, message, after, effects, now),
        schedule_in_step(before),
    ensures
        schedule_in_step(after),
{
    reveal(restarted);
    reveal(estimated);
    reveal(pattern_added);
    reveal(place_stepped);
    reveal(went_next);
    reveal(advanced);
    reveal(finished);
}

/// Turning automatic backups off and on again brings back the schedule set
/// before.
pub proof fn lemma_automatic_backups_come_back_on_their_schedule(
    w0: Wizard,
    w1: Wizard,
    w2: Wizard,
    e1: Seq<Effect>,
    e2: Seq<Effect>,
    t1: u64,
    t2: u64,
)
    requires
        schedule_in_step(w0),
        w0.schedule != Schedule::Manual,
        stepped(w0, Message::Automatic(false), w1, e1, t1),
        stepped(w1, Message::Automatic(true), w2, e2, t2),
    ensures
        w1.schedule == Schedule::Manual,
        w2.schedule == w0.schedule,
        schedule_in_step(w2),
{
}

/// Turning automatic backups off and on again comes back to the frequency
/// chosen before.
pub proof fn lemma_automatic_backups_come_back_at_their_frequency(
    w0: Wizard,
    w1: Wizard,
    w2: Wizard,
    e1: Seq<Effect>,
    e2: Seq<Effect>,
    t1: u64,
    t2: u64,
)
    requires
        stepped(w0, Message::Automatic(false), w1, e1, t1),
        stepped(w1, Message::Automatic(true), w2, e2, t2),
    ensures
        w1.schedule == Schedule::Manual,
        w2.schedule == w0.frequency,
        w2.frequency == w0.frequency,
{
}

/// Choosing whether to free space overrides the destination's default.
pub proof fn lemma_freeing_space_follows_the_choice(
    before: Wizard,
    on: bool,
    after: Wizard,
    effects: Seq<Effect>,
    now: u64,
)
    requires
        stepped(before, Message::Prune(on), after, effects, now),
    ensures
        prunes(after) == on,
{
}

/// A destination on this computer or on a removable drive frees space by
/// default, one reached over the network does not, until the user chooses.
pub proof fn lemma_freeing_space_follows_the_destination(w: Wizard)
    requires
        w.prune is None,
        destination_of(w) is Some,
    ensures
        prunes(w) == (destination_of(w).unwrap() is Local || destination_of(w).unwrap() is Removable),
{
}

} // verus!
