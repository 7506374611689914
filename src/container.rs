//! Containers started from a configuration, and the states a container
//! runtime reports for them.
use vstd::prelude::*;

verus! {

#[derive(Clone, Copy, PartialEq, Eq, Structural, Debug)]
pub enum ContainerStatus {
    Created,
    Running,
    Restarting,
    Exited,
    Paused,
    Dead,
    Unknown,
}

/// The status that a runtime's state word names: one of the six known words,
/// `Unknown` for anything else.
pub open spec fn status_of_word(w: Seq<char>) -> ContainerStatus {
    if w == "created"@ {
        ContainerStatus::Created
    } else if w == "running"@ {
        ContainerStatus::Running
    } else if w == "restarting"@ {
        ContainerStatus::Restarting
    } else if w == "exited"@ {
        ContainerStatus::Exited
    } else if w == "paused"@ {
        ContainerStatus::Paused
    } else if w == "dead"@ {
        ContainerStatus::Dead
    } else {
        ContainerStatus::Unknown
    }
}

/// A container as it was started.
#[derive(Clone)]
pub struct Container {
    pub id: String,
    pub name: String,
    pub image: String,
    pub created: String,
    pub ports: String,
    status: ContainerStatus,
}

/// What a container holds, as text and status.
pub struct ContainerView {
    pub id: Seq<char>,
    pub name: Seq<char>,
    pub image: Seq<char>,
    pub created: Seq<char>,
    pub ports: Seq<char>,
    pub status: ContainerStatus,
}

impl View for Container {
    type V = ContainerView;

    closed spec fn view(&self) -> ContainerView {
        ContainerView {
            id: self.id@,
            name: self.name@,
            image: self.image@,
            created: self.created@,
            ports: self.ports@,
            status: self.status,
        }
    }
}

impl Container {

    /// A container that the runtime has just started under `id`; its status is `Created`.
    pub fn new(id: String, name: &str, image: &str, created: String, ports: &str) -> (c: Container)
        ensures
            c@ == (ContainerView {
                id: id@,
                name: name@,
                image: image@,
                created: created@,
                ports: ports@,
                status: ContainerStatus::Created,
            }),
    {
        Container {
            id,
            name: name.to_owned(),
            image: image.to_owned(),
            created,
            ports: ports.to_owned(),
            status: ContainerStatus::Created,
        }
    }

    pub fn get_status(&self) -> (r: ContainerStatus)
        ensures
            r == self@.status,
    {
        self.status
    }
}

fn str_eq(a: &str, b: &str) -> (r: bool)
    ensures
        r == (a@ == b@),
{
    let n = a.unicode_len();
    if n != b.unicode_len() {
        return false;
    }
    let mut i: usize = 0;
    while i < n
        invariant
            n == a@.len(),
            n == b@.len(),
            i <= n,
            a@.subrange(0, i as int) == b@.subrange(0, i as int),
        decreases n - i,
    {
        if a.get_char(i) != b.get_char(i) {
            assert(a@[i as int] != b@[i as int]);
            return false;
        }
        assert(a@.subrange(0, i + 1) =~= a@.subrange(0, i as int).push(a@[i as int]));
        assert(b@.subrange(0, i + 1) =~= b@.subrange(0, i as int).push(b@[i as int]));
        i += 1;
    }
    assert(a@ =~= a@.subrange(0, n as int));
    assert(b@ =~= b@.subrange(0, n as int));
    true
}

/// Maps the state word that a container runtime reports to a status.
pub fn container_status_mapper(status: &str) -> (r: ContainerStatus)
    ensures
        r == status_of_word(status@),
{
    if str_eq(status, "created") {
        ContainerStatus::Created
    } else if str_eq(status, "running") {
        ContainerStatus::Running
    } else if str_eq(status, "restarting") {
        ContainerStatus::Restarting
    } else if str_eq(status, "exited") {
        ContainerStatus::Exited
    } else if str_eq(status, "paused") {
        ContainerStatus::Paused
    } else if str_eq(status, "dead") {
        ContainerStatus::Dead
    } else {
        ContainerStatus::Unknown
    }
}

/// The status a watcher records after asking the runtime about a container:
/// the reported one when the query succeeded, the current one otherwise.
pub fn updated_status(current: ContainerStatus, query_succeeded: bool, reported: &str) -> (r:
    ContainerStatus)
    ensures
        r == (if query_succeeded {
            status_of_word(reported@)
        } else {
            current
        }),
{
    if query_succeeded {
        let new_status = container_status_mapper(reported);
        if new_status != current {
            return new_status;
        }
    }
    current
}

} // verus!
