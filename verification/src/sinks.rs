//! User-installed log sinks and the ordered registry that fans records
//! out to them.

use vstd::prelude::*;

use crate::log_data::{LogData, LogDataView};

verus! {

/// A destination for records, installed by the library's user.
///
/// `received` is the sink's history: the records it has accepted, in
/// delivery order.  A delivery either appends the record (success) or
/// leaves the history unchanged (failure).
pub trait LogSink: Sized {
    /// The records this sink has accepted so far, in order.
    spec fn received(&self) -> Seq<LogDataView>;

    /// Delivers one record; returns false when the sink failed.
    fn on_record(&mut self, d: &LogData) -> (ok: bool)
        ensures
            ok ==> final(self).received() == old(self).received().push(d@),
            !ok ==> final(self).received() == old(self).received(),
    ;
}

/// A sink that stores every record it is handed.
pub struct RecordingSink {
    pub records: Vec<LogData>,
}

impl RecordingSink {
    /// A fresh sink with an empty history.
    pub fn new() -> (r: Self)
        ensures
            r.received() == Seq::<LogDataView>::empty(),
    {
        let r = RecordingSink { records: Vec::new() };
        proof {
            assert(r.records@.map_values(|d: LogData| d@) =~= Seq::<LogDataView>::empty());
        }
        r
    }
}

impl LogSink for RecordingSink {
    open spec fn received(&self) -> Seq<LogDataView> {
        self.records@.map_values(|d: LogData| d@)
    }

    fn on_record(&mut self, d: &LogData) -> (ok: bool)
        ensures
            ok ==> final(self).received() == old(self).received().push(d@),
            !ok ==> final(self).received() == old(self).received(),
    {
        let copy = d.clone_record();
        proof {
            assert(old(self).records@.push(copy).map_values(|x: LogData| x@)
                =~= old(self).records@.map_values(|x: LogData| x@).push(copy@));
        }
        self.records.push(copy);
        true
    }
}

/// The ordered list of installed sinks.  Mutation and iteration are
/// never concurrent: the caller holds the logger's write lock for both.
pub struct SinkRegistry<S> {
    pub sinks: Vec<S>,
}

impl<S: LogSink> SinkRegistry<S> {
    /// The histories of the registered sinks, in registration order.
    pub open spec fn view(self) -> Seq<Seq<LogDataView>> {
        self.sinks@.map_values(|s: S| s.received())
    }

    /// An empty registry.
    pub fn new() -> (r: Self)
        ensures
            r.view() == Seq::<Seq<LogDataView>>::empty(),
    {
        let r = SinkRegistry { sinks: Vec::new() };
        proof {
            assert(r.view() =~= Seq::<Seq<LogDataView>>::empty());
        }
        r
    }

    /// The number of registered sinks.
    pub fn sink_count(&self) -> (n: usize)
        ensures
            n == self.view().len(),
    {
        self.sinks.len()
    }

    /// Appends a sink; it will be invoked after all earlier sinks.
    pub fn add_sink(&mut self, sink: S)
        ensures
            final(self).view() == old(self).view().push(sink.received()),
    {
        proof {
            assert(old(self).sinks@.push(sink).map_values(|s: S| s.received())
                =~= old(self).sinks@.map_values(|s: S| s.received()).push(sink.received()));
        }
        self.sinks.push(sink);
    }

    /// Delivers one record to every sink, in registration order.  A
    /// failing sink leaves its own history unchanged and does not stop
    /// delivery to the others.  Returns whether every sink accepted.
    pub fn dispatch_record(&mut self, d: &LogData) -> (all_ok: bool)
        ensures
            final(self).view().len() == old(self).view().len(),
            forall|i: int|
                0 <= i < old(self).view().len() ==> (#[trigger] final(self).view()[i]
                    == old(self).view()[i].push(d@) || final(self).view()[i] == old(
                    self,
                ).view()[i]),
            all_ok ==> forall|i: int|
                0 <= i < old(self).view().len() ==> #[trigger] final(self).view()[i] == old(
                    self,
                ).view()[i].push(d@),
    {
        let ghost before = self.sinks@;
        let mut all_ok = true;
        let mut k: usize = 0;
        let n = self.sinks.len();
        while k < n
            invariant
                k <= n,
                n == before.len(),
                self.sinks@.len() == before.len(),
                forall|i: int| k <= i < before.len() ==> self.sinks@[i] == before[i],
                forall|i: int|
                    0 <= i < k ==> (#[trigger] self.sinks@[i].received()
                        == before[i].received().push(d@) || self.sinks@[i].received()
                        == before[i].received()),
                all_ok ==> forall|i: int|
                    0 <= i < k ==> #[trigger] self.sinks@[i].received()
                        == before[i].received().push(d@),
            decreases n - k,
        {
            let mut sink = self.sinks.remove(k);
            let ok = sink.on_record(d);
            self.sinks.insert(k, sink);
            proof {
                assert(self.sinks@[k as int] == sink);
            }
            all_ok = all_ok && ok;
            k += 1;
        }
        proof {
            assert forall|i: int|
                0 <= i < old(self).view().len() implies (#[trigger] self.view()[i]
                == old(self).view()[i].push(d@) || self.view()[i] == old(self).view()[i]) by {
                assert(self.view()[i] == self.sinks@[i].received());
                assert(old(self).view()[i] == before[i].received());
            }
            if all_ok {
                assert forall|i: int|
                    0 <= i < old(self).view().len() implies #[trigger] self.view()[i] == old(
                    self,
                ).view()[i].push(d@) by {
                    assert(self.view()[i] == self.sinks@[i].received());
                    assert(old(self).view()[i] == before[i].received());
                }
            }
        }
        all_ok
    }

    /// Delivers a whole batch to every sink, record by record, keeping
    /// batch order.  When every delivery succeeds, each registered sink
    /// has received exactly the batch, appended in order to its history:
    /// no record is delivered twice and none is skipped.
    pub fn dispatch_batch(&mut self, batch: &Vec<LogData>) -> (all_ok: bool)
        ensures
            final(self).view().len() == old(self).view().len(),
            all_ok ==> forall|i: int|
                0 <= i < old(self).view().len() ==> #[trigger] final(self).view()[i] == old(
                    self,
                ).view()[i] + batch@.map_values(|d: LogData| d@),
    {
        let ghost before = self.view();
        let ghost batch_views = batch@.map_values(|d: LogData| d@);
        let mut all_ok = true;
        let mut k: usize = 0;
        proof {
            assert forall|i: int| 0 <= i < before.len() implies #[trigger] self.view()[i]
                == before[i] + batch_views.take(0) by {
                assert(before[i] + batch_views.take(0) =~= before[i]);
            }
        }
        while k < batch.len()
            invariant
                k <= batch@.len(),
                batch_views == batch@.map_values(|d: LogData| d@),
                self.view().len() == before.len(),
                all_ok ==> forall|i: int|
                    0 <= i < before.len() ==> #[trigger] self.view()[i] == before[i]
                        + batch_views.take(k as int),
            decreases batch@.len() - k,
        {
            let ghost mid = self.view();
            let ok = self.dispatch_record(&batch[k]);
            all_ok = all_ok && ok;
            proof {
                if all_ok {
                    assert forall|i: int| 0 <= i < before.len() implies #[trigger] self.view()[i]
                        == before[i] + batch_views.take(k + 1) by {
                        assert(mid[i] == before[i] + batch_views.take(k as int));
                        assert(self.view()[i] == mid[i].push(batch_views[k as int]));
                        assert((before[i] + batch_views.take(k as int)).push(
                            batch_views[k as int],
                        ) =~= before[i] + batch_views.take(k + 1));
                    }
                }
            }
            k += 1;
        }
        proof {
            if all_ok {
                assert forall|i: int| 0 <= i < before.len() implies #[trigger] self.view()[i]
                    == before[i] + batch_views by {
                    assert(self.view()[i] == before[i] + batch_views.take(batch@.len() as int));
                    assert(batch_views.take(batch@.len() as int) =~= batch_views);
                }
            }
        }
        all_ok
    }
}

} // verus!
