//! Ports: what the engine and the use cases need from the outside world,
//! and the capabilities of the mirror device.

use vstd::prelude::*;

use crate::calibration::{Calibration, CodeView};
use crate::error::AppError;
use crate::event::{Action, InputEvent};
use crate::key::KeyCode;
use crate::node::NodeId;
use crate::profile::{Profile, ProfileView};

verus! {

/// The names of a list of nodes.
pub open spec fn names_of(nodes: Seq<NodeId>) -> Seq<Seq<char>> {
    nodes.map_values(|n: NodeId| n@)
}

/// Event source: input node grab and blocking batch reads.
pub trait InputEventSource {
    /// Whether the implementation follows the model below; one that does
    /// not say so promises nothing through it.
    open spec fn follows_model() -> bool {
        false
    }

    /// The nodes currently grabbed, by name.
    open spec fn grabbed_names(&self) -> Seq<Seq<char>> {
        Seq::empty()
    }

    /// Grabs the nodes; on success exactly they are grabbed.
    fn grab(&mut self, nodes: &[NodeId]) -> (r: Result<(), AppError>)
        ensures
            Self::follows_model() && r is Ok ==> final(self).grabbed_names() == names_of(nodes@),
            Self::follows_model() && r is Err ==> final(self).grabbed_names() == old(self).grabbed_names(),
    ;

    /// Lets every grabbed node go.
    fn release(&mut self) -> (r: Result<(), AppError>)
        ensures
            Self::follows_model() && r is Ok ==> final(self).grabbed_names().len() == 0,
    ;

    /// The next batch of events; the grab is untouched.
    fn read_events(&mut self) -> (r: Result<Vec<InputEvent>, AppError>)
        ensures
            Self::follows_model() ==> final(self).grabbed_names() == old(self).grabbed_names(),
    ;

    fn grabbed(&self) -> (g: &[NodeId])
        ensures
            Self::follows_model() ==> names_of(g@) == self.grabbed_names(),
    ;
}

/// Output sink: virtual mirror device.
pub trait OutputEventSink {
    /// Whether the implementation follows the model below; one that does
    /// not say so promises nothing through it.
    open spec fn follows_model() -> bool {
        false
    }

    /// Everything emitted to the mirror since it was created.
    open spec fn emitted_actions(&self) -> Seq<Action> {
        Seq::empty()
    }

    /// The mirror device, by name and capabilities, when it exists.
    open spec fn mirror(&self) -> Option<(Seq<char>, CapsView)> {
        None
    }

    /// Creates the mirror; on success it exists with this name and these
    /// capabilities, and nothing is emitted to it yet.
    fn create(&mut self, name: &str, caps: &Caps) -> (r: Result<(), AppError>)
        ensures
            Self::follows_model() && r is Ok ==> final(self).mirror() == Some((name@, caps@))
                && final(self).emitted_actions().len() == 0,
            Self::follows_model() && r is Err ==> final(self).mirror() == old(self).mirror()
                && final(self).emitted_actions() == old(self).emitted_actions(),
    ;

    /// Injects actions in order; on success they follow what was emitted.
    fn emit(&mut self, actions: &[Action]) -> (r: Result<(), AppError>)
        ensures
            Self::follows_model() && r is Ok ==> final(self).emitted_actions() == old(self).emitted_actions() + actions@,
            Self::follows_model() && r is Ok ==> final(self).mirror() == old(self).mirror(),
            Self::follows_model() && r is Err ==> final(self).emitted_actions() == old(self).emitted_actions()
                && final(self).mirror() == old(self).mirror(),
    ;

    /// Destroys the mirror; on success it is gone.
    fn destroy(&mut self) -> (r: Result<(), AppError>)
        ensures
            Self::follows_model() ==> r is Ok,
            Self::follows_model() && r is Ok ==> final(self).mirror() is None && final(self).emitted_actions() == old(
                self,
            ).emitted_actions(),
    ;
}

/// Profile persistence.
pub trait ProfileRepository {
    /// Whether the implementation follows the model below; one that does
    /// not say so promises nothing through it.
    open spec fn follows_model() -> bool {
        false
    }

    /// The stored profiles, by name.
    open spec fn stored(&self) -> Map<Seq<char>, ProfileView> {
        Map::empty()
    }

    /// The names of the stored profiles.
    fn list(&self) -> (r: Result<Vec<String>, AppError>)
        ensures
            Self::follows_model() ==> (r matches Ok(names) ==> crate::order::texts(names@).to_set() == self.stored().dom()),
            Self::follows_model() ==> r is Ok,
    ;

    /// The stored profile of a name; a name with none is an error.
    fn load(&self, name: &str) -> (r: Result<Profile, AppError>)
        ensures
            Self::follows_model() ==> (r matches Ok(p) ==> self.stored().contains_key(name@) && p@ == self.stored()[name@]),
            Self::follows_model() && !self.stored().contains_key(name@) ==> r is Err,
            Self::follows_model() && self.stored().contains_key(name@) ==> r is Ok,
    ;

    /// Stores a profile under its name, replacing any of that name.
    fn save(&mut self, profile: &Profile) -> (r: Result<(), AppError>)
        ensures
            Self::follows_model() && r is Ok ==> final(self).stored() == old(self).stored().insert(profile@.0, profile@),
    ;

    /// Removes the profile of a name; a name with none is an error.
    fn delete(&mut self, name: &str) -> (r: Result<(), AppError>)
        ensures
            Self::follows_model() && r is Ok ==> final(self).stored() == old(self).stored().remove(name@),
            Self::follows_model() && !old(self).stored().contains_key(name@) ==> r is Err,
            Self::follows_model() && old(self).stored().contains_key(name@) ==> r is Ok,
    ;
}

/// Calibration persistence.
pub trait CalibrationRepository {
    /// Whether the implementation follows the model below; one that does
    /// not say so promises nothing through it.
    open spec fn follows_model() -> bool {
        false
    }

    /// The stored calibration, if any.
    open spec fn stored_calibration(&self) -> Option<Seq<Option<CodeView>>> {
        None
    }

    fn load(&self) -> (r: Result<Option<Calibration>, AppError>)
        ensures
            Self::follows_model() ==> (r matches Ok(c) ==> (c is Some <==> self.stored_calibration() is Some) && (c matches Some(c)
                ==> self.stored_calibration() == Some(c@))),
    ;

    /// Stores a calibration, replacing the stored one.
    fn save(&mut self, calibration: &Calibration) -> (r: Result<(), AppError>)
        ensures
            Self::follows_model() && r is Ok ==> final(self).stored_calibration() == Some(calibration@),
    ;
}

/// Locates the input nodes of the device.
pub trait DeviceLocator {
    fn locate(&self) -> Result<Vec<NodeId>, AppError>;
}

/// Strictly increasing codes.
pub open spec fn increasing(s: Seq<u16>) -> bool {
    forall|i: int, j: int| 0 <= i < j < s.len() ==> s[i] < s[j]
}

/// Inserts a code into a strictly increasing list, keeping it so.
fn insert_code(v: &mut Vec<u16>, x: u16)
    requires
        increasing(old(v)@),
    ensures
        increasing(final(v)@),
        final(v)@.to_set() == old(v)@.to_set().insert(x),
{
    let mut pos: usize = 0;
    while pos < v.len() && v[pos] < x
        invariant
            pos <= v@.len(),
            forall|a: int| 0 <= a < pos ==> v@[a] < x,
        decreases v@.len() - pos,
    {
        pos = pos + 1;
    }
    if pos < v.len() && v[pos] == x {
        proof {
            assert(v@.to_set() =~= v@.to_set().insert(x)) by {
                assert(v@.to_set().contains(x)) by {
                    assert(v@[pos as int] == x);
                }
            }
        }
        return ;
    }
    let ghost before = v@;
    v.insert(pos, x);
    proof {
        assert forall|a: int, b: int| 0 <= a < b < v@.len() implies v@[a] < v@[b] by {
            if b < pos {
            } else if a < pos && b == pos {
            } else if a < pos {
                assert(v@[b] == before[b - 1]);
                assert(before[pos as int] > x);
            } else if a == pos {
                assert(v@[b] == before[b - 1]);
                assert(before[pos as int] > x);
                assert(before[pos as int] <= before[b - 1]);
            } else {
                assert(v@[a] == before[a - 1] && v@[b] == before[b - 1]);
            }
        }
        assert forall|y: u16| v@.to_set().contains(y) == before.to_set().insert(x).contains(y) by {
            if v@.contains(y) {
                let a = choose|a: int| 0 <= a < v@.len() && v@[a] == y;
                if a < pos {
                    assert(before[a] == y);
                } else if a > pos {
                    assert(before[a - 1] == y);
                }
            }
            if before.contains(y) {
                let a = choose|a: int| 0 <= a < before.len() && before[a] == y;
                if a < pos {
                    assert(v@[a] == y);
                } else {
                    assert(v@[a + 1] == y);
                }
            }
            if y == x {
                assert(v@[pos as int] == x);
            }
        }
        assert(v@.to_set() =~= before.to_set().insert(x));
    }
}

/// Capabilities of the mirror device to create.
#[derive(Debug, Default, PartialEq, Eq)]
pub struct Caps {
    keys: Vec<u16>,
    rels: Vec<u16>,
    abss: Vec<u16>,
    mscs: Vec<u16>,
}

/// View of capabilities: key, relative, absolute and miscellaneous codes.
pub type CapsView = (Set<u16>, Set<u16>, Set<u16>, Set<u16>);

impl View for Caps {
    type V = CapsView;

    closed spec fn view(&self) -> CapsView {
        (self.keys@.to_set(), self.rels@.to_set(), self.abss@.to_set(), self.mscs@.to_set())
    }
}

fn union_into(v: &mut Vec<u16>, other: &Vec<u16>)
    requires
        increasing(old(v)@),
    ensures
        increasing(final(v)@),
        final(v)@.to_set() == old(v)@.to_set().union(other@.to_set()),
{
    let ghost start = v@.to_set();
    let mut i: usize = 0;
    while i < other.len()
        invariant
            i <= other@.len(),
            increasing(v@),
            v@.to_set() == start.union(other@.take(i as int).to_set()),
        decreases other@.len() - i,
    {
        insert_code(v, other[i]);
        proof {
            assert(other@.take(i + 1) =~= other@.take(i as int).push(other@[i as int]));
            other@.take(i as int).lemma_push_to_set_commute(other@[i as int]);
            assert(v@.to_set() =~= start.union(other@.take(i + 1).to_set()));
        }
        i = i + 1;
    }
    assert(other@.take(i as int) =~= other@);
}

impl Caps {
    #[verifier::type_invariant]
    spec fn sorted(self) -> bool {
        &&& increasing(self.keys@)
        &&& increasing(self.rels@)
        &&& increasing(self.abss@)
        &&& increasing(self.mscs@)
    }

    pub fn new() -> (c: Caps)
        ensures
            c@ == (Set::<u16>::empty(), Set::<u16>::empty(), Set::<u16>::empty(), Set::<u16>::empty()),
    {
        let c = Caps { keys: Vec::new(), rels: Vec::new(), abss: Vec::new(), mscs: Vec::new() };
        proof {
            assert(c.keys@.to_set() =~= Set::<u16>::empty());
        }
        c
    }

    pub fn add_key(&mut self, key: KeyCode) -> (r: &mut Caps)
        ensures
            (*r)@ == (old(self)@.0.insert(key@), old(self)@.1, old(self)@.2, old(self)@.3),
            *final(self) == *final(r),
    {
        self.add_key_code(key.code())
    }

    pub fn add_key_code(&mut self, code: u16) -> (r: &mut Caps)
        ensures
            (*r)@ == (old(self)@.0.insert(code), old(self)@.1, old(self)@.2, old(self)@.3),
            *final(self) == *final(r),
    {
        proof {
            use_type_invariant(&*self);
        }
        let mut keys: Vec<u16> = Vec::new();
        std::mem::swap(&mut keys, &mut self.keys);
        insert_code(&mut keys, code);
        std::mem::swap(&mut keys, &mut self.keys);
        self
    }

    pub fn add_rel(&mut self, code: u16) -> (r: &mut Caps)
        ensures
            (*r)@ == (old(self)@.0, old(self)@.1.insert(code), old(self)@.2, old(self)@.3),
            *final(self) == *final(r),
    {
        proof {
            use_type_invariant(&*self);
        }
        let mut rels: Vec<u16> = Vec::new();
        std::mem::swap(&mut rels, &mut self.rels);
        insert_code(&mut rels, code);
        std::mem::swap(&mut rels, &mut self.rels);
        self
    }

    pub fn add_abs(&mut self, code: u16) -> (r: &mut Caps)
        ensures
            (*r)@ == (old(self)@.0, old(self)@.1, old(self)@.2.insert(code), old(self)@.3),
            *final(self) == *final(r),
    {
        proof {
            use_type_invariant(&*self);
        }
        let mut abss: Vec<u16> = Vec::new();
        std::mem::swap(&mut abss, &mut self.abss);
        insert_code(&mut abss, code);
        std::mem::swap(&mut abss, &mut self.abss);
        self
    }

    pub fn add_msc(&mut self, code: u16) -> (r: &mut Caps)
        ensures
            (*r)@ == (old(self)@.0, old(self)@.1, old(self)@.2, old(self)@.3.insert(code)),
            *final(self) == *final(r),
    {
        proof {
            use_type_invariant(&*self);
        }
        let mut mscs: Vec<u16> = Vec::new();
        std::mem::swap(&mut mscs, &mut self.mscs);
        insert_code(&mut mscs, code);
        std::mem::swap(&mut mscs, &mut self.mscs);
        self
    }

    /// Key codes, in increasing order.
    pub fn keys(&self) -> (k: &[u16])
        ensures
            k@.to_set() == self@.0,
            increasing(k@),
    {
        proof {
            use_type_invariant(self);
        }
        self.keys.as_slice()
    }

    /// Relative axis codes, in increasing order.
    pub fn rels(&self) -> (k: &[u16])
        ensures
            k@.to_set() == self@.1,
            increasing(k@),
    {
        proof {
            use_type_invariant(self);
        }
        self.rels.as_slice()
    }

    /// Absolute axis codes, in increasing order.
    pub fn abss(&self) -> (k: &[u16])
        ensures
            k@.to_set() == self@.2,
            increasing(k@),
    {
        proof {
            use_type_invariant(self);
        }
        self.abss.as_slice()
    }

    /// Miscellaneous codes, in increasing order.
    pub fn mscs(&self) -> (k: &[u16])
        ensures
            k@.to_set() == self@.3,
            increasing(k@),
    {
        proof {
            use_type_invariant(self);
        }
        self.mscs.as_slice()
    }

    /// Adds every capability of `other`.
    pub fn merge(&mut self, other: &Caps)
        ensures
            final(self)@ == (
                old(self)@.0.union(other@.0),
                old(self)@.1.union(other@.1),
                old(self)@.2.union(other@.2),
                old(self)@.3.union(other@.3),
            ),
    {
        proof {
            use_type_invariant(&*self);
        }
        let mut keys: Vec<u16> = Vec::new();
        std::mem::swap(&mut keys, &mut self.keys);
        union_into(&mut keys, &other.keys);
        std::mem::swap(&mut keys, &mut self.keys);
        let mut rels: Vec<u16> = Vec::new();
        std::mem::swap(&mut rels, &mut self.rels);
        union_into(&mut rels, &other.rels);
        std::mem::swap(&mut rels, &mut self.rels);
        let mut abss: Vec<u16> = Vec::new();
        std::mem::swap(&mut abss, &mut self.abss);
        union_into(&mut abss, &other.abss);
        std::mem::swap(&mut abss, &mut self.abss);
        let mut mscs: Vec<u16> = Vec::new();
        std::mem::swap(&mut mscs, &mut self.mscs);
        union_into(&mut mscs, &other.mscs);
        std::mem::swap(&mut mscs, &mut self.mscs);
    }
}

/// A copy of a list of codes.
pub fn clone_codes(v: &Vec<u16>) -> (r: Vec<u16>)
    ensures
        r@ == v@,
{
    let mut r: Vec<u16> = Vec::new();
    let mut i: usize = 0;
    while i < v.len()
        invariant
            i <= v@.len(),
            r@ == v@.take(i as int),
        decreases v@.len() - i,
    {
        r.push(v[i]);
        assert(v@.take(i + 1) =~= v@.take(i as int).push(v@[i as int]));
        i = i + 1;
    }
    assert(v@.take(i as int) =~= v@);
    r
}

impl Clone for Caps {
    fn clone(&self) -> (c: Self)
        ensures
            c@ == self@,
    {
        proof {
            use_type_invariant(self);
        }
        Caps {
            keys: clone_codes(&self.keys),
            rels: clone_codes(&self.rels),
            abss: clone_codes(&self.abss),
            mscs: clone_codes(&self.mscs),
        }
    }
}

} // verus!
