use vstd::prelude::*;

verus! {

/// The direction of traffic that a toxic applies to.
#[derive(Debug, Clone, Copy, PartialEq, Eq, Structural)]
pub enum StreamDirection {
    /// From the client to the upstream service.
    Upstream,
    /// From the upstream service back to the client.
    Downstream,
}

/// The transform a toxic performs, with its parameters (durations in milliseconds).
#[derive(Debug, Clone, Copy, PartialEq, Eq, Structural)]
pub enum ToxicKind {
    Noop,
    Latency { latency: u64, jitter: u64 },
    Timeout { timeout: u64 },
    Bandwidth { rate: u64 },
    SlowClose { delay: u64 },
    Slicer { average_size: u64, size_variation: u64, delay: u64 },
    LimitData { bytes: u64 },
}

/// A named transform on one direction of a connection.
#[derive(Debug)]
pub struct Toxic {
    pub kind: ToxicKind,
    pub name: String,
    pub direction: StreamDirection,
}

impl Clone for Toxic {
    fn clone(&self) -> (r: Self)
        ensures
            r == *self,
    {
        Toxic { kind: self.kind, name: self.name.clone(), direction: self.direction }
    }
}

/// A requested change to a proxy's toxics.
#[derive(Debug)]
pub enum ToxicEventKind {
    AddToxic(Toxic),
    UpdateToxic(Toxic),
    RemoveToxic(String),
}

/// A reconfiguration request for the proxy named `proxy_name`.
#[derive(Debug)]
pub struct ToxicEvent {
    pub proxy_name: String,
    pub kind: ToxicEventKind,
}

/// The toxic named in an update or removal exists in neither direction.
#[derive(Debug, Clone, Copy, PartialEq, Eq, Structural)]
pub struct NotFoundError;

/// `i` is the first position in `s` of a toxic named `name`.
pub open spec fn first_named(s: Seq<Toxic>, name: Seq<char>, i: int) -> bool {
    &&& 0 <= i < s.len()
    &&& s[i].name@ == name
    &&& forall|j: int| 0 <= j < i ==> s[j].name@ != name
}

/// The first position in `s` of a toxic named `name`, or -1 when there is none.
pub open spec fn index_of_name(s: Seq<Toxic>, name: Seq<char>) -> int {
    if exists|i: int| first_named(s, name, i) {
        choose|i: int| first_named(s, name, i)
    } else {
        -1
    }
}

/// The list of direction `dir` after the change `ev`, or `None` when the
/// change does not apply to this list.
pub open spec fn list_after(s: Seq<Toxic>, dir: StreamDirection, ev: ToxicEventKind) -> Option<Seq<Toxic>> {
    match ev {
        ToxicEventKind::AddToxic(t) => if t.direction == dir {
            Some(s.push(t))
        } else {
            None
        },
        ToxicEventKind::UpdateToxic(t) => {
            let i = index_of_name(s, t.name@);
            if t.direction == dir && i >= 0 {
                Some(s.update(i, t))
            } else {
                None
            }
        },
        ToxicEventKind::RemoveToxic(name) => {
            let i = index_of_name(s, name@);
            if i >= 0 {
                Some(s.remove(i))
            } else {
                None
            }
        },
    }
}

/// The pair of lists (upstream, downstream) after the change `ev`: the
/// upstream list is tried first, then the downstream one; `None` when the
/// change applies to neither.
pub open spec fn toxics_after(up: Seq<Toxic>, down: Seq<Toxic>, ev: ToxicEventKind) -> Option<(Seq<Toxic>, Seq<Toxic>)> {
    match list_after(up, StreamDirection::Upstream, ev) {
        Some(u) => Some((u, down)),
        None => match list_after(down, StreamDirection::Downstream, ev) {
            Some(d) => Some((up, d)),
            None => None,
        },
    }
}

proof fn lemma_first_named_unique(s: Seq<Toxic>, name: Seq<char>, i: int)
    requires
        first_named(s, name, i),
    ensures
        index_of_name(s, name) == i,
{
    let k = choose|k: int| first_named(s, name, k);
    assert(first_named(s, name, k));
    if k < i {
        assert(s[k].name@ != name);
    } else if i < k {
        assert(s[i].name@ != name);
    }
}

/// The position of the first toxic of `list` named `name`.
pub fn position_of(list: &Vec<Toxic>, name: &String) -> (r: Option<usize>)
    ensures
        match r {
            Some(i) => index_of_name(list@, name@) == i as int,
            None => index_of_name(list@, name@) == -1,
        },
{
    let mut i: usize = 0;
    while i < list.len()
        invariant
            0 <= i <= list@.len(),
            forall|j: int| 0 <= j < i ==> list@[j].name@ != name@,
        decreases list@.len() - i,
    {
        if list[i].name == *name {
            proof {
                lemma_first_named_unique(list@, name@, i as int);
            }
            return Some(i);
        }
        i = i + 1;
    }
    assert(!exists|k: int| first_named(list@, name@, k));
    None
}

/// Applies `kind` to `list`, the toxics of direction `direction`. On failure
/// the list is left as it was and the change is handed back.
pub fn update_toxic_list_in_place(
    list: &mut Vec<Toxic>,
    direction: StreamDirection,
    kind: ToxicEventKind,
) -> (r: Result<(), ToxicEventKind>)
    ensures
        match list_after(old(list)@, direction, kind) {
            Some(s) => r is Ok && final(list)@ == s,
            None => r == Err::<(), ToxicEventKind>(kind) && final(list)@ == old(list)@,
        },
{
    match kind {
        ToxicEventKind::AddToxic(t) => {
            if t.direction == direction {
                list.push(t);
                Ok(())
            } else {
                Err(ToxicEventKind::AddToxic(t))
            }
        },
        ToxicEventKind::UpdateToxic(t) => {
            if t.direction != direction {
                return Err(ToxicEventKind::UpdateToxic(t));
            }
            match position_of(list, &t.name) {
                Some(i) => {
                    list.set(i, t);
                    Ok(())
                },
                None => Err(ToxicEventKind::UpdateToxic(t)),
            }
        },
        ToxicEventKind::RemoveToxic(name) => {
            match position_of(list, &name) {
                Some(i) => {
                    list.remove(i);
                    Ok(())
                },
                None => Err(ToxicEventKind::RemoveToxic(name)),
            }
        },
    }
}

/// The toxics of a proxy: one ordered chain for each direction.
#[derive(Debug)]
pub struct Toxics {
    /// The toxics applied on the upstream link.
    pub upstream: Vec<Toxic>,
    /// The toxics applied on the downstream link.
    pub downstream: Vec<Toxic>,
}

impl Clone for Toxics {
    fn clone(&self) -> (r: Self)
        ensures
            r.upstream@ == self.upstream@,
            r.downstream@ == self.downstream@,
    {
        Toxics { upstream: copy_list(&self.upstream), downstream: copy_list(&self.downstream) }
    }
}

/// A copy of `list`, toxic by toxic.
pub fn copy_list(list: &Vec<Toxic>) -> (r: Vec<Toxic>)
    ensures
        r@ == list@,
{
    let mut r: Vec<Toxic> = Vec::new();
    let mut i: usize = 0;
    while i < list.len()
        invariant
            0 <= i <= list@.len(),
            r@ == list@.subrange(0, i as int),
        decreases list@.len() - i,
    {
        r.push(list[i].clone());
        assert(list@.subrange(0, i + 1) == list@.subrange(0, i as int).push(list@[i as int]));
        i = i + 1;
    }
    assert(list@.subrange(0, list@.len() as int) == list@);
    r
}

impl Toxics {
    /// No toxic in either direction.
    pub fn noop() -> (r: Self)
        ensures
            r.upstream@.len() == 0,
            r.downstream@.len() == 0,
    {
        Toxics { upstream: Vec::new(), downstream: Vec::new() }
    }

    /// All toxics in one list: the upstream ones, then the downstream ones.
    pub fn into_vec(self) -> (r: Vec<Toxic>)
        ensures
            r@ == self.upstream@ + self.downstream@,
    {
        let mut up = self.upstream;
        let mut down = self.downstream;
        up.append(&mut down);
        up
    }

    /// The first toxic named `toxic_name` in the upstream list, else the first
    /// in the downstream list, else `None`.
    pub fn find_by_name(&self, toxic_name: &str) -> (r: Option<Toxic>)
        ensures
            r == (if index_of_name(self.upstream@, toxic_name@) >= 0 {
                Some(self.upstream@[index_of_name(self.upstream@, toxic_name@)])
            } else if index_of_name(self.downstream@, toxic_name@) >= 0 {
                Some(self.downstream@[index_of_name(self.downstream@, toxic_name@)])
            } else {
                None
            }),
    {
        let name = toxic_name.to_owned();
        match position_of(&self.upstream, &name) {
            Some(i) => Some(self.upstream[i].clone()),
            None => match position_of(&self.downstream, &name) {
                Some(i) => Some(self.downstream[i].clone()),
                None => None,
            },
        }
    }
}

/// Applies the change of `event` to `toxics`: the upstream list is tried
/// first, then the downstream one. When the change applies to neither (an
/// update or removal of a name that is not there), `toxics` is unchanged.
pub fn update_toxics(event: ToxicEvent, toxics: &mut Toxics) -> (r: Result<(), NotFoundError>)
    ensures
        match toxics_after(old(toxics).upstream@, old(toxics).downstream@, event.kind) {
            Some((u, d)) => r is Ok && final(toxics).upstream@ == u && final(toxics).downstream@ == d,
            None => r == Err::<(), NotFoundError>(NotFoundError)
                && final(toxics).upstream@ == old(toxics).upstream@
                && final(toxics).downstream@ == old(toxics).downstream@,
        },
{
    match update_toxic_list_in_place(&mut toxics.upstream, StreamDirection::Upstream, event.kind) {
        Ok(()) => Ok(()),
        Err(kind) => match update_toxic_list_in_place(&mut toxics.downstream, StreamDirection::Downstream, kind) {
            Ok(()) => Ok(()),
            Err(_) => Err(NotFoundError),
        },
    }
}

/// A toxic added under a name that neither direction uses, then removed by
/// that name, leaves both lists as they were before the addition.
pub proof fn lemma_add_then_remove_restores(up: Seq<Toxic>, down: Seq<Toxic>, t: Toxic, name: String)
    requires
        name@ == t.name@,
        index_of_name(up, name@) == -1,
        index_of_name(down, name@) == -1,
    ensures
        t.direction == StreamDirection::Upstream ==> {
            &&& toxics_after(up, down, ToxicEventKind::AddToxic(t)) == Some((up.push(t), down))
            &&& toxics_after(up.push(t), down, ToxicEventKind::RemoveToxic(name)) == Some((up, down))
        },
        t.direction == StreamDirection::Downstream ==> {
            &&& toxics_after(up, down, ToxicEventKind::AddToxic(t)) == Some((up, down.push(t)))
            &&& toxics_after(up, down.push(t), ToxicEventKind::RemoveToxic(name)) == Some((up, down))
        },
{
    if t.direction == StreamDirection::Upstream {
        lemma_push_then_remove(up, t, name);
    } else {
        lemma_push_then_remove(down, t, name);
    }
}

proof fn lemma_push_then_remove(s: Seq<Toxic>, t: Toxic, name: String)
    requires
        name@ == t.name@,
        index_of_name(s, name@) == -1,
    ensures
        index_of_name(s.push(t), name@) == s.len(),
        s.push(t).remove(s.len() as int) == s,
{
    let p = s.push(t);
    assert forall|j: int| 0 <= j < s.len() implies p[j].name@ != name@ by {
        if p[j].name@ == name@ {
            assert(s[j].name@ == name@);
            lemma_some_first(s, name@, j);
        }
    }
    lemma_first_named_unique(p, name@, s.len() as int);
    assert(p.remove(s.len() as int) =~= s);
}

proof fn lemma_some_first(s: Seq<Toxic>, name: Seq<char>, j: int)
    requires
        0 <= j < s.len(),
        s[j].name@ == name,
    ensures
        index_of_name(s, name) >= 0,
    decreases j,
{
    if forall|k: int| 0 <= k < j ==> s[k].name@ != name {
        lemma_first_named_unique(s, name, j);
    } else {
        let k = choose|k: int| 0 <= k < j && s[k].name@ == name;
        lemma_some_first(s, name, k);
    }
}

} // verus!
