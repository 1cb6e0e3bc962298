//! The decision core of the network polling worker: what one tick publishes,
//! how per-namespace rows are assembled, and when the loop ends. The
//! surrounding runtime performs the fetches and the waiting and hands the
//! results in as plain values.

use vstd::prelude::*;

use crate::event::FetchError;
use crate::event::NetworkMessage;
use crate::table::KubeTable;

verus! {

/// The state a polling worker owns: the namespaces it watches. The
/// cancellation flag and the channel stay with the runtime, which hands the
/// flag's value into `step` on every tick.
#[derive(Debug)]
pub struct PollWorker {
    pub namespaces: Vec<String>,
}

/// The worker that polls the network summary (ingresses, services, pods).
#[derive(Debug)]
pub struct NetworkPollWorker {
    pub inner: PollWorker,
}

/// What one tick of a worker loop does: publish one message, or stop for
/// good.
#[derive(Debug)]
pub enum WorkerStep {
    Publish(NetworkMessage),
    Exit,
}

/// The header of the network summary: a namespace column is prepended
/// exactly when more than one namespace is watched.
pub open spec fn spec_network_header(nss: int) -> Seq<Seq<char>> {
    if nss == 1 {
        seq!["KIND"@, "NAME"@, "AGE"@]
    } else {
        seq!["NAMESPACE"@, "KIND"@, "NAME"@, "AGE"@]
    }
}

/// Whether a namespace column is added to every row.
pub open spec fn spec_insert_ns(nss: int) -> bool {
    nss != 1
}

/// Whether a namespace column is added: only a single watched namespace
/// leaves it out.
pub fn insert_ns(namespaces: &Vec<String>) -> (r: bool)
    ensures
        r == spec_insert_ns(namespaces@.len() as int),
{
    namespaces.len() != 1
}

/// One row of the network summary built from one fetched object.
pub open spec fn spec_network_row(
    kind: Seq<char>,
    name: Seq<char>,
    age: Seq<char>,
    ns: Option<Seq<char>>,
) -> Seq<Seq<char>> {
    match ns {
        Some(n) => seq![n, kind, name, age],
        None => seq![kind, name, age],
    }
}

/// Builds one summary row; the namespace cell leads when it is given.
pub fn make_network_row(kind: &str, name: String, age: String, ns: Option<String>) -> (r: Vec<
    String,
>)
    ensures
        r@.map_values(|x: String| x@) == spec_network_row(
            kind@,
            name@,
            age@,
            match ns {
                Some(n) => Some(n@),
                None => None,
            },
        ),
{
    let mut r: Vec<String> = Vec::new();
    match ns {
        Some(n) => {
            r.push(n);
            r.push(kind.to_owned());
            r.push(name);
            r.push(age);
            proof {
                assert(r@.map_values(|x: String| x@) =~= spec_network_row(kind@, name@, age@,
                    Some(ns->0@)));
            }
        },
        None => {
            r.push(kind.to_owned());
            r.push(name);
            r.push(age);
            proof {
                assert(r@.map_values(|x: String| x@) =~= spec_network_row(kind@, name@, age@,
                    None::<Seq<char>>));
            }
        },
    }
    r
}

impl NetworkPollWorker {
    pub fn new(inner: PollWorker) -> (r: NetworkPollWorker)
        ensures
            r.inner.namespaces@ == inner.namespaces@,
    {
        NetworkPollWorker { inner }
    }

    /// The header this worker's tables carry, per the watched namespaces.
    pub fn polling_header(&self) -> (r: Vec<String>)
        ensures
            r@.map_values(|x: String| x@) == spec_network_header(
                self.inner.namespaces@.len() as int,
            ),
    {
        let mut r: Vec<String> = Vec::new();
        if self.inner.namespaces.len() == 1 {
            r.push("KIND".to_owned());
            r.push("NAME".to_owned());
            r.push("AGE".to_owned());
            proof {
                assert(r@.map_values(|x: String| x@) =~= spec_network_header(1));
            }
        } else {
            r.push("NAMESPACE".to_owned());
            r.push("KIND".to_owned());
            r.push("NAME".to_owned());
            r.push("AGE".to_owned());
            proof {
                assert(r@.map_values(|x: String| x@) =~= spec_network_header(
                    self.inner.namespaces@.len() as int,
                ));
            }
        }
        r
    }

    /// Assembles one tick's table from the fetched rows. A fetch failure
    /// fails the whole tick; nothing stale is mixed in. Rows that do not
    /// align with the header also fail the tick.
    pub fn polling(&self, fetched: Result<Vec<Vec<String>>, FetchError>) -> (r: Result<
        KubeTable,
        FetchError,
    >)
        ensures
            spec_polling_post(self.inner.namespaces@.len() as int, &fetched, &r),
    {
        match fetched {
            Err(e) => Err(e),
            Ok(rows) => {
                let header = self.polling_header();
                let ghost headerv = header@;
                proof {
                    let nss = self.inner.namespaces@.len() as int;
                    assert(headerv.map_values(|x: String| x@).len() == headerv.len());
                    assert(spec_network_header(nss).len() == spec_network_width(nss));
                    assert(headerv.len() == spec_network_width(nss));
                }
                match KubeTable::new(header, rows) {
                    Some(t) => Ok(t),
                    None => Err(FetchError { message: "row width mismatch".to_owned() }),
                }
            },
        }
    }

    /// One tick of the worker loop. Once the shared cancellation flag is
    /// seen set, the worker exits and publishes nothing more; otherwise it
    /// publishes exactly one poll result, error or not, and carries on.
    pub fn step(&self, is_terminated: bool, fetched: Result<Vec<Vec<String>>, FetchError>) -> (r:
        WorkerStep)
        ensures
            is_terminated ==> r is Exit,
            !is_terminated ==> (match r {
                WorkerStep::Publish(NetworkMessage::Poll(p)) => spec_polling_post(
                    self.inner.namespaces@.len() as int,
                    &fetched,
                    &p,
                ),
                _ => false,
            }),
    {
        if is_terminated {
            WorkerStep::Exit
        } else {
            WorkerStep::Publish(NetworkMessage::Poll(self.polling(fetched)))
        }
    }
}

/// What assembling one tick's table yields: the fetch's own failure is
/// passed through, aligned rows give the table with the network header, and
/// misaligned rows fail the tick.
pub open spec fn spec_polling_post(
    nss: int,
    fetched: &Result<Vec<Vec<String>>, FetchError>,
    r: &Result<KubeTable, FetchError>,
) -> bool {
    match fetched {
        Err(e) => match r {
            Err(e2) => e2.message@ == e.message@,
            Ok(_) => false,
        },
        Ok(rows) => {
            if forall|i: int| 0 <= i < rows@.len() ==> (#[trigger] rows@[i])@.len()
                == spec_network_width(nss) {
                match r {
                    Ok(t) => t.spec_header().map_values(|x: String| x@) == spec_network_header(
                        nss,
                    ) && t.spec_rows() == rows@,
                    Err(_) => false,
                }
            } else {
                r is Err
            }
        },
    }
}

/// The number of columns of the network summary.
pub open spec fn spec_network_width(nss: int) -> int {
    if nss == 1 {
        3
    } else {
        4
    }
}

} // verus!
