use vstd::prelude::*;

use crate::text::str_eq;

verus! {

/// Why the shared-stream registry refused a request.
#[derive(Debug, Clone, Copy, PartialEq, Eq, Structural)]
pub enum SharedStreamError {
    AlreadyRegistered,
    NotFound,
    AlreadySubscribed,
}

/// The streams that pipelines publish for one another: each name once,
/// with the subscribers that joined it, in order of joining.
#[derive(Debug)]
pub struct SharedStreamRegistry {
    pub names: Vec<String>,
    pub subscribers: Vec<Vec<String>>,
}

fn find(list: &Vec<String>, name: &str) -> (r: Option<usize>)
    ensures
        r matches Some(i) ==> i < list@.len() && list@[i as int]@ == name@,
        r is None ==> forall|i: int| 0 <= i < list@.len() ==> (#[trigger] list@[i])@ != name@,
{
    let mut i: usize = 0;
    while i < list.len()
        invariant
            0 <= i <= list@.len(),
            forall|k: int| 0 <= k < i ==> (#[trigger] list@[k])@ != name@,
        decreases list@.len() - i,
    {
        if str_eq(list[i].as_str(), name) {
            return Some(i);
        }
        i += 1;
    }
    None
}

impl SharedStreamRegistry {
    pub open spec fn wf(&self) -> bool {
        &&& self.names@.len() == self.subscribers@.len()
        &&& forall|i: int, j: int| 0 <= i < j < self.names@.len() ==> self.names@[i]@ != self.names@[j]@
    }

    pub fn new() -> (r: SharedStreamRegistry)
        ensures
            r.wf(),
            r.names@.len() == 0,
    {
        SharedStreamRegistry { names: Vec::new(), subscribers: Vec::new() }
    }

    /// Takes the slot for a published stream; a name already bound is refused.
    pub fn register(&mut self, name: String) -> (r: Result<(), SharedStreamError>)
        requires
            old(self).wf(),
        ensures
            final(self).wf(),
            (exists|i: int| 0 <= i < old(self).names@.len() && old(self).names@[i]@ == name@) <==> r is Err,
            r is Err ==> r == Err::<(), SharedStreamError>(SharedStreamError::AlreadyRegistered)
                && final(self).names@ == old(self).names@ && final(self).subscribers@ == old(self).subscribers@,
            r is Ok ==> final(self).names@ == old(self).names@.push(name) && final(self).subscribers@.len()
                == old(self).subscribers@.len() + 1 && final(self).subscribers@.last()@.len() == 0
                && final(self).subscribers@.drop_last() == old(self).subscribers@,
    {
        match find(&self.names, name.as_str()) {
            Some(i) => {
                assert(self.names@[i as int]@ == name@);
                Err(SharedStreamError::AlreadyRegistered)
            },
            None => {
                self.names.push(name);
                self.subscribers.push(Vec::new());
                proof {
                    assert(self.subscribers@.drop_last() =~= old(self).subscribers@);
                }
                Ok(())
            },
        }
    }

    /// Adds a subscriber to a published stream. An unknown stream, or a
    /// subscriber already there, is refused.
    pub fn subscribe(&mut self, name: &str, subscriber_id: String) -> (r: Result<(), SharedStreamError>)
        requires
            old(self).wf(),
        ensures
            final(self).wf(),
            final(self).names@ == old(self).names@,
            (forall|i: int| 0 <= i < old(self).names@.len() ==> old(self).names@[i]@ != name@) ==> r
                == Err::<(), SharedStreamError>(SharedStreamError::NotFound),
            r is Err ==> final(self).subscribers@ == old(self).subscribers@,
            forall|i: int|
                0 <= i < old(self).names@.len() && old(self).names@[i]@ == name@ ==> (r
                    == Err::<(), SharedStreamError>(SharedStreamError::AlreadySubscribed) <==> exists|k: int|
                    0 <= k < old(self).subscribers@[i]@.len() && (#[trigger] old(self).subscribers@[i]@[k])@
                        == subscriber_id@) && (r is Ok || r == Err::<(), SharedStreamError>(
                    SharedStreamError::AlreadySubscribed,
                )),
            r is Ok ==> exists|i: int|
                0 <= i < old(self).names@.len() && old(self).names@[i]@ == name@
                    && final(self).subscribers@[i]@ == old(self).subscribers@[i]@.push(subscriber_id)
                    && forall|k: int| 0 <= k < old(self).names@.len() && k != i ==> final(self).subscribers@[k]
                        == old(self).subscribers@[k],
    {
        let i = match find(&self.names, name) {
            Some(i) => i,
            None => {
                return Err(SharedStreamError::NotFound);
            },
        };
        proof {
            assert forall|j: int| 0 <= j < self.names@.len() && self.names@[j]@ == name@ implies j == i by {
                if j != i {
                    if j < i {
                        assert(self.names@[j]@ != self.names@[i as int]@);
                    } else {
                        assert(self.names@[i as int]@ != self.names@[j]@);
                    }
                }
            }
        }
        match find(&self.subscribers[i], subscriber_id.as_str()) {
            Some(k) => {
                assert(self.subscribers@[i as int]@[k as int]@ == subscriber_id@);
                return Err(SharedStreamError::AlreadySubscribed);
            },
            None => {},
        }
        let mut list = self.subscribers.remove(i);
        let ghost before = list@;
        list.push(subscriber_id);
        self.subscribers.insert(i, list);
        proof {
            assert forall|k: int| 0 <= k < old(self).names@.len() && k != i implies self.subscribers@[k]
                == old(self).subscribers@[k] by {
                if k < i {
                    assert(self.subscribers@[k] == old(self).subscribers@[k]);
                } else {
                    assert(self.subscribers@[k] == old(self).subscribers@[k]);
                }
            }
        }
        Ok(())
    }

    /// The subscribers of a stream, if it is published.
    pub fn subscribers_of(&self, name: &str) -> (r: Option<&Vec<String>>)
        requires
            self.wf(),
        ensures
            r is None <==> forall|i: int| 0 <= i < self.names@.len() ==> self.names@[i]@ != name@,
            r matches Some(v) ==> exists|i: int| 0 <= i < self.names@.len() && self.names@[i]@ == name@
                && self.subscribers@[i] == *v,
    {
        match find(&self.names, name) {
            Some(i) => Some(&self.subscribers[i]),
            None => None,
        }
    }
}

} // verus!
