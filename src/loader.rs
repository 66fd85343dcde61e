//! The module's load lifecycle: on its host's load event it asks for one
//! attribute, the version, to be registered, and records the host's answer.
//!
//! The host performs the registration; this state machine decides what to ask
//! for and what the outcome means.

use vstd::prelude::*;

use crate::version::{semver_format, lemma_semver_nonempty};

verus! {

/// The name under which the version is registered.
pub const VERSION_ATTRIBUTE: &'static str = "__version__";

/// A named attribute of the module, with its text value.
#[derive(Debug)]
pub struct Attribute {
    pub name: String,
    pub value: String,
}

impl View for Attribute {
    type V = (Seq<char>, Seq<char>);

    open spec fn view(&self) -> (Seq<char>, Seq<char>) {
        (self.name@, self.value@)
    }
}

#[derive(Clone, Copy, Debug, PartialEq, Eq, Structural)]
pub enum Phase {
    /// Not yet loaded.
    Uninitialized,
    /// The version attribute has been handed to the host for registration.
    Registering,
    /// Loaded: the version attribute is registered.
    Initialized,
    /// Registration failed; the load is aborted and nothing is registered.
    Failed,
}

/// What the host reports to the module.
#[derive(Clone, Copy, Debug, PartialEq, Eq, Structural)]
pub enum LoadEvent {
    /// The host loads (imports) the module.
    LoadRequested,
    /// The host registered the attribute it was asked to register.
    RegistrationSucceeded,
    /// The host's registration primitive failed.
    RegistrationFailed,
}

#[derive(Clone, Copy, Debug, PartialEq, Eq, Structural)]
pub enum InitError {
    /// The host could not register the version attribute.
    RegistrationFailed,
}

/// What the module asks of the host in answer to an event.
#[derive(Debug)]
pub enum LoadAction {
    /// Register this attribute on the module.
    Register(Attribute),
    /// The module is loaded.
    Ready,
    /// The load fails with this error.
    Abort(InitError),
    /// The event does not apply in the current phase; nothing changed.
    Ignored,
}

pub enum ActionView {
    Register(Seq<char>, Seq<char>),
    Ready,
    Abort(InitError),
    Ignored,
}

impl View for LoadAction {
    type V = ActionView;

    open spec fn view(&self) -> ActionView {
        match self {
            LoadAction::Register(a) => ActionView::Register(a.name@, a.value@),
            LoadAction::Ready => ActionView::Ready,
            LoadAction::Abort(e) => ActionView::Abort(*e),
            LoadAction::Ignored => ActionView::Ignored,
        }
    }
}

pub struct ModuleView {
    /// The version declared at build time.
    pub version: Seq<char>,
    pub phase: Phase,
    /// The attributes registered on the module, as (name, value) pairs.
    pub attributes: Seq<(Seq<char>, Seq<char>)>,
}

impl ModuleView {
    /// The declared version is in the semantic-versioning format, and the
    /// version attribute is registered exactly when the module is loaded.
    pub open spec fn wf(self) -> bool {
        &&& semver_format(self.version)
        &&& if self.phase == Phase::Initialized {
            self.attributes == seq![(VERSION_ATTRIBUTE@, self.version)]
        } else {
            self.attributes.len() == 0
        }
    }
}

/// A module that has not been loaded yet.
pub open spec fn initial(version: Seq<char>) -> ModuleView {
    ModuleView { version, phase: Phase::Uninitialized, attributes: Seq::empty() }
}

/// The next state and the action for an event.
pub open spec fn next(m: ModuleView, e: LoadEvent) -> (ModuleView, ActionView) {
    match (m.phase, e) {
        (Phase::Uninitialized, LoadEvent::LoadRequested) => (
            ModuleView { phase: Phase::Registering, ..m },
            ActionView::Register(VERSION_ATTRIBUTE@, m.version),
        ),
        (Phase::Registering, LoadEvent::RegistrationSucceeded) => (
            ModuleView {
                phase: Phase::Initialized,
                attributes: seq![(VERSION_ATTRIBUTE@, m.version)],
                ..m
            },
            ActionView::Ready,
        ),
        (Phase::Registering, LoadEvent::RegistrationFailed) => (
            ModuleView { phase: Phase::Failed, attributes: Seq::empty(), ..m },
            ActionView::Abort(InitError::RegistrationFailed),
        ),
        (Phase::Initialized, LoadEvent::LoadRequested) => (m, ActionView::Ready),
        (Phase::Failed, LoadEvent::LoadRequested) => (
            m,
            ActionView::Abort(InitError::RegistrationFailed),
        ),
        _ => (m, ActionView::Ignored),
    }
}

/// The value registered under `name`, the first such if there are several.
pub open spec fn lookup(attributes: Seq<(Seq<char>, Seq<char>)>, name: Seq<char>) -> Option<
    Seq<char>,
>
    decreases attributes.len(),
{
    if attributes.len() == 0 {
        None
    } else if attributes[0].0 == name {
        Some(attributes[0].1)
    } else {
        lookup(attributes.drop_first(), name)
    }
}

/// The marker module: its declared version, its phase, and the attributes
/// registered on it.
pub struct ShimModule {
    version: String,
    phase: Phase,
    attributes: Vec<Attribute>,
}

impl View for ShimModule {
    type V = ModuleView;

    closed spec fn view(&self) -> ModuleView {
        ModuleView {
            version: self.version@,
            phase: self.phase,
            attributes: self.attributes@.map_values(|a: Attribute| a@),
        }
    }
}

impl ShimModule {
    #[verifier::type_invariant]
    spec fn inv(self) -> bool {
        self@.wf()
    }

    /// A module not yet loaded, carrying the version declared at build time.
    pub fn new(version: &str) -> (r: ShimModule)
        requires
            semver_format(version@),
        ensures
            r@ == initial(version@),
            r@.wf(),
    {
        let r = ShimModule {
            version: String::from_str(version),
            phase: Phase::Uninitialized,
            attributes: Vec::new(),
        };
        assert(r@.attributes =~= Seq::<(Seq<char>, Seq<char>)>::empty());
        r
    }

    fn version_attribute(&self) -> (r: Attribute)
        ensures
            r@ == (VERSION_ATTRIBUTE@, self@.version),
    {
        Attribute { name: String::from_str(VERSION_ATTRIBUTE), value: self.version.clone() }
    }

    /// Takes one event of the host and answers with what the host must do.
    pub fn step(&mut self, e: LoadEvent) -> (r: LoadAction)
        ensures
            (final(self)@, r@) == next(old(self)@, e),
            final(self)@.wf(),
    {
        proof {
            use_type_invariant(&*self);
        }
        match (self.phase, e) {
            (Phase::Uninitialized, LoadEvent::LoadRequested) => {
                let a = self.version_attribute();
                assert(self@.attributes =~= Seq::empty());
                let attributes: Vec<Attribute> = Vec::new();
                assert(attributes@.map_values(|x: Attribute| x@) =~= Seq::empty());
                *self = ShimModule {
                    version: self.version.clone(),
                    phase: Phase::Registering,
                    attributes,
                };
                LoadAction::Register(a)
            },
            (Phase::Registering, LoadEvent::RegistrationSucceeded) => {
                let mut attributes: Vec<Attribute> = Vec::new();
                attributes.push(self.version_attribute());
                assert(attributes@.map_values(|x: Attribute| x@) =~= seq![
                    (VERSION_ATTRIBUTE@, self@.version),
                ]);
                *self = ShimModule {
                    version: self.version.clone(),
                    phase: Phase::Initialized,
                    attributes,
                };
                LoadAction::Ready
            },
            (Phase::Registering, LoadEvent::RegistrationFailed) => {
                let attributes: Vec<Attribute> = Vec::new();
                assert(attributes@.map_values(|x: Attribute| x@) =~= Seq::empty());
                *self = ShimModule {
                    version: self.version.clone(),
                    phase: Phase::Failed,
                    attributes,
                };
                LoadAction::Abort(InitError::RegistrationFailed)
            },
            (Phase::Initialized, LoadEvent::LoadRequested) => LoadAction::Ready,
            (Phase::Failed, LoadEvent::LoadRequested) => LoadAction::Abort(
                InitError::RegistrationFailed,
            ),
            _ => LoadAction::Ignored,
        }
    }

    pub fn phase(&self) -> (r: Phase)
        ensures
            r == self@.phase,
    {
        self.phase
    }

    /// The attributes registered on the module.
    pub fn attributes(&self) -> (r: &Vec<Attribute>)
        ensures
            r@.map_values(|a: Attribute| a@) == self@.attributes,
    {
        &self.attributes
    }

    /// The value of the attribute `name`, if one is registered.
    pub fn get_attribute(&self, name: &str) -> (r: Option<String>)
        ensures
            r matches Some(v) ==> lookup(self@.attributes, name@) == Some(v@),
            r is None ==> lookup(self@.attributes, name@) is None,
    {
        let wanted = String::from_str(name);
        let mut i: usize = 0;
        assert(self@.attributes.skip(0) =~= self@.attributes);
        while i < self.attributes.len()
            invariant
                i <= self.attributes@.len(),
                wanted@ == name@,
                lookup(self@.attributes, name@) == lookup(self@.attributes.skip(i as int), name@),
            decreases self.attributes@.len() - i,
        {
            let a = &self.attributes[i];
            let ghost rest = self@.attributes.skip(i as int);
            assert(rest[0] == a@);
            if a.name.eq(&wanted) {
                return Some(a.value.clone());
            }
            assert(rest.drop_first() =~= self@.attributes.skip(i + 1));
            i += 1;
        }
        None
    }
}

/// A load that succeeds leaves a non-empty version in the semantic-versioning
/// format registered under the version attribute.
pub proof fn lemma_loaded_version_is_semver(m: ModuleView, e: LoadEvent)
    requires
        m.wf(),
        next(m, e).1 == ActionView::Ready,
    ensures
        lookup(next(m, e).0.attributes, VERSION_ATTRIBUTE@) matches Some(v) && v.len() > 0
            && semver_format(v),
{
    let m2 = next(m, e).0;
    assert(m2.attributes == seq![(VERSION_ATTRIBUTE@, m.version)]);
    assert(m2.attributes.drop_first() =~= Seq::<(Seq<char>, Seq<char>)>::empty());
    lemma_semver_nonempty(m.version);
}

/// The value registered under the version attribute is the version declared
/// at build time, character for character: the module asks the host to
/// register exactly that text, and once the host has done so the attribute
/// reads back as it.
pub proof fn lemma_registered_version_is_declared(declared: Seq<char>)
    requires
        semver_format(declared),
    ensures
        next(initial(declared), LoadEvent::LoadRequested).1 == ActionView::Register(
            VERSION_ATTRIBUTE@,
            declared,
        ),
        next(next(initial(declared), LoadEvent::LoadRequested).0, LoadEvent::RegistrationSucceeded).1
            == ActionView::Ready,
        lookup(
            next(
                next(initial(declared), LoadEvent::LoadRequested).0,
                LoadEvent::RegistrationSucceeded,
            ).0.attributes,
            VERSION_ATTRIBUTE@,
        ) == Some(declared),
{
    let m2 = next(next(initial(declared), LoadEvent::LoadRequested).0, LoadEvent::RegistrationSucceeded).0;
    assert(m2.attributes.drop_first() =~= Seq::<(Seq<char>, Seq<char>)>::empty());
}

/// Loading a module that is already loaded changes nothing and succeeds: the
/// version attribute has the same value after the second load as after the
/// first.
pub proof fn lemma_reload_keeps_version(m: ModuleView)
    requires
        m.wf(),
        m.phase == Phase::Initialized,
    ensures
        next(m, LoadEvent::LoadRequested) == (m, ActionView::Ready),
        lookup(next(m, LoadEvent::LoadRequested).0.attributes, VERSION_ATTRIBUTE@) == lookup(
            m.attributes,
            VERSION_ATTRIBUTE@,
        ),
        lookup(m.attributes, VERSION_ATTRIBUTE@) == Some(m.version),
{
    assert(m.attributes.drop_first() =~= Seq::<(Seq<char>, Seq<char>)>::empty());
}

/// The module holds no attribute but the version attribute: exactly one once
/// loaded, none before or after a failed load.
pub proof fn lemma_single_attribute(m: ModuleView)
    requires
        m.wf(),
    ensures
        m.attributes.len() == if m.phase == Phase::Initialized {
            1int
        } else {
            0int
        },
        forall|i: int| 0 <= i < m.attributes.len() ==> (#[trigger] m.attributes[i]).0 == VERSION_ATTRIBUTE@,
{
}

/// When the host's registration fails the load is aborted, and no attribute is
/// left registered.
pub proof fn lemma_failed_registration_registers_nothing(m: ModuleView)
    requires
        m.wf(),
        m.phase == Phase::Registering,
    ensures
        next(m, LoadEvent::RegistrationFailed).1 == ActionView::Abort(InitError::RegistrationFailed),
        next(m, LoadEvent::RegistrationFailed).0.phase == Phase::Failed,
        next(m, LoadEvent::RegistrationFailed).0.attributes.len() == 0,
        lookup(next(m, LoadEvent::RegistrationFailed).0.attributes, VERSION_ATTRIBUTE@) is None,
{
}

} // verus!
