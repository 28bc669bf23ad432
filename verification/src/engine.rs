//! The consumer's decision core: the registered-context map model, the
//! flush counter, and the planning of one drained batch into the exact
//! lines each file receives.
//!
//! The shell that owns the real files, locks and the consumer thread
//! drives this core: it drains the queue, hands the batch to
//! `process_batch`, writes the planned lines, and flushes when told to.

use vstd::prelude::*;
use vstd::string::StringExecFns;

use crate::chunker::{spec_chunk_batch, spec_effective_max, split_str_into_chunks};
use crate::config::LoggerConfig;
use crate::errors::LoggerError;
use crate::log_data::{spec_format, spec_format_compact, LogData, LogDataView};

verus! {

/// The flush trigger: a flush happens whenever the queue has drained
/// empty or this many records have been logged since the last flush.
pub const FLUSH_THRESHOLD: usize = 100;

/// What the consumer must write for one chunked record: the full line
/// for the global file and, when the record's tag is registered, the
/// compact line for that context's file.
pub struct WriteAction {
    /// The chunked record itself, for the per-record backends.
    pub record: LogData,
    pub global_line: String,
    /// The registered tag and the compact line for its file.
    pub context: Option<(String, String)>,
}

/// The model of a write action.
#[verifier::ext_equal]
pub ghost struct WriteActionView {
    pub record: LogDataView,
    pub global_line: Seq<char>,
    pub context: Option<(Seq<char>, Seq<char>)>,
}

impl View for WriteAction {
    type V = WriteActionView;

    open spec fn view(&self) -> WriteActionView {
        WriteActionView {
            record: self.record@,
            global_line: self.global_line@,
            context: match self.context {
                Option::Some(p) => Option::Some((p.0@, p.1@)),
                Option::None => Option::None,
            },
        }
    }
}

/// The action planned for one record: the global file always receives
/// the full line; the record's context file receives the compact line
/// exactly when the record has a tag and that tag is registered.
pub open spec fn spec_plan_record(d: LogDataView, contexts: Seq<Seq<char>>) -> WriteActionView {
    WriteActionView {
        record: d,
        global_line: spec_format(d),
        context: match d.tag {
            Option::Some(t) => if contexts.contains(t) {
                Option::Some((t, spec_format_compact(d)))
            } else {
                Option::None
            },
            Option::None => Option::None,
        },
    }
}

/// Context routing: a record reaches its context file exactly when it
/// carries a tag and that tag is registered; the global file receives
/// the record in every case.
pub proof fn lemma_context_routing(d: LogDataView, contexts: Seq<Seq<char>>)
    ensures
        spec_plan_record(d, contexts).record == d,
        spec_plan_record(d, contexts).global_line == spec_format(d),
        (spec_plan_record(d, contexts).context is Some) <==> (d.tag is Some && contexts.contains(
            d.tag->0,
        )),
        (d.tag is Some && contexts.contains(d.tag->0)) ==> spec_plan_record(d, contexts).context
            == Option::Some((d.tag->0, spec_format_compact(d))),
{
}

/// The decision core of the logger: configuration, the set of
/// registered context tags, the flush counter and the lifecycle flag.
pub struct LoggerCore {
    pub config: LoggerConfig,
    pub contexts: Vec<String>,
    pub logged: usize,
    pub inited: bool,
}

impl LoggerCore {
    /// The registered context tags, in registration order.
    pub open spec fn registered(self) -> Seq<Seq<char>> {
        self.contexts@.map_values(|s: String| s@)
    }

    /// Records logged since the last flush.
    pub open spec fn spec_logged(self) -> nat {
        self.logged as nat
    }

    /// Whether the consumer has been started.
    pub open spec fn spec_inited(self) -> bool {
        self.inited
    }

    /// Well-formedness: no tag is registered twice.
    pub open spec fn wf(self) -> bool {
        self.registered().no_duplicates()
    }

    /// A fresh core: nothing registered, nothing logged, not started.
    pub fn new(config: LoggerConfig) -> (r: Self)
        ensures
            r.wf(),
            r.config == config,
            r.registered() == Seq::<Seq<char>>::empty(),
            r.spec_logged() == 0,
            !r.spec_inited(),
    {
        let r = LoggerCore { config, contexts: Vec::new(), logged: 0, inited: false };
        proof {
            assert(r.registered() =~= Seq::<Seq<char>>::empty());
        }
        r
    }

    /// Marks the core as started.  Fails with `AlreadyInitialized`, and
    /// changes nothing, when it was started before.
    pub fn init_transition(&mut self) -> (r: Result<(), LoggerError>)
        ensures
            old(self).spec_inited() ==> r is Err && r->Err_0 is AlreadyInitialized && *final(self)
                == *old(self),
            !old(self).spec_inited() ==> r is Ok && final(self).spec_inited(),
            !old(self).spec_inited() ==> final(self).registered() == old(self).registered(),
            !old(self).spec_inited() ==> final(self).spec_logged() == old(self).spec_logged(),
            !old(self).spec_inited() ==> final(self).config == old(self).config,
    {
        if self.inited {
            Result::Err(LoggerError::AlreadyInitialized)
        } else {
            self.inited = true;
            Result::Ok(())
        }
    }

    /// Whether the consumer has been started.
    pub fn is_inited(&self) -> (r: bool)
        ensures
            r == self.spec_inited(),
    {
        self.inited
    }

    /// Whether `tag` is a registered context.
    pub fn is_registered(&self, tag: &str) -> (r: bool)
        ensures
            r == self.registered().contains(tag@),
    {
        let tag_string = tag.to_owned();
        let n = self.contexts.len();
        let mut k: usize = 0;
        while k < n
            invariant
                k <= n,
                n == self.contexts@.len(),
                tag_string@ == tag@,
                forall|i: int| 0 <= i < k ==> self.registered()[i] != tag@,
            decreases n - k,
        {
            if self.contexts[k] == tag_string {
                proof {
                    assert(self.registered()[k as int] == tag@);
                }
                return true;
            }
            k += 1;
        }
        proof {
            assert(forall|i: int| 0 <= i < self.registered().len() ==> self.registered()[i]
                != tag@);
        }
        false
    }

    /// Registers `tag` as a context.  A tag registered twice stays
    /// registered once.  Returns whether the tag was new.
    pub fn register_context(&mut self, tag: &str) -> (added: bool)
        requires
            old(self).wf(),
        ensures
            final(self).wf(),
            added == !old(self).registered().contains(tag@),
            added ==> final(self).registered() == old(self).registered().push(tag@),
            !added ==> final(self).registered() == old(self).registered(),
            final(self).registered().contains(tag@),
            final(self).spec_logged() == old(self).spec_logged(),
            final(self).spec_inited() == old(self).spec_inited(),
            final(self).config == old(self).config,
    {
        if self.is_registered(tag) {
            false
        } else {
            let owned = tag.to_owned();
            proof {
                assert(self.contexts@.push(owned).map_values(|s: String| s@)
                    =~= self.contexts@.map_values(|s: String| s@).push(owned@));
            }
            self.contexts.push(owned);
            proof {
                assert(self.registered() =~= old(self).registered().push(tag@));
                assert(self.registered().drop_last() =~= old(self).registered());
                assert(self.registered()[self.registered().len() - 1] == tag@);
            }
            true
        }
    }

    /// Removes `tag` from the registered contexts; after the call the
    /// tag is not registered.  Later records with this tag go only to
    /// the global file.
    pub fn unregister_context(&mut self, tag: &str)
        requires
            old(self).wf(),
        ensures
            final(self).wf(),
            !final(self).registered().contains(tag@),
            !old(self).registered().contains(tag@) ==> final(self).registered() == old(self).registered(),
            old(self).registered().contains(tag@) ==> (exists|j: int|
                0 <= j < old(self).registered().len() && old(self).registered()[j] == tag@
                    && final(self).registered() == old(self).registered().remove(j)),
            final(self).spec_logged() == old(self).spec_logged(),
            final(self).spec_inited() == old(self).spec_inited(),
            final(self).config == old(self).config,
    {
        let tag_string = tag.to_owned();
        let n = self.contexts.len();
        let mut k: usize = 0;
        while k < n
            invariant
                k <= n,
                n == self.contexts@.len(),
                tag_string@ == tag@,
                old(self).wf(),
                *self == *old(self),
                forall|i: int| 0 <= i < k ==> self.registered()[i] != tag@,
            decreases n - k,
        {
            if self.contexts[k] == tag_string {
                proof {
                    assert(old(self).registered()[k as int] == tag@);
                    assert(old(self).registered().contains(tag@));
                }
                self.contexts.remove(k);
                proof {
                    assert(final(self).registered() =~= old(self).registered().remove(k as int));
                    lemma_remove_keeps_no_duplicates(old(self).registered(), k as int);
                    lemma_removed_unique_not_contained(old(self).registered(), k as int, tag@);
                }
                return ;
            }
            k += 1;
        }
        proof {
            assert(forall|i: int| 0 <= i < self.registered().len() ==> self.registered()[i]
                != tag@);
            assert(!old(self).registered().contains(tag@));
        }
    }

    /// The records-since-flush counter.
    pub fn logged_count(&self) -> (r: usize)
        ensures
            r == self.spec_logged(),
    {
        self.logged
    }

    /// Plans the file writes for one (already chunked) record.
    pub fn plan_record(&self, d: &LogData) -> (r: WriteAction)
        ensures
            r@ == spec_plan_record(d@, self.registered()),
    {
        let global_line = d.format();
        let context = match &d.tag {
            Option::Some(t) => {
                if self.is_registered(t.as_str()) {
                    Option::Some((t.as_str().to_owned(), d.format_compact()))
                } else {
                    Option::None
                }
            },
            Option::None => Option::None,
        };
        let r = WriteAction { record: d.clone_record(), global_line, context };
        proof {
            assert(r@ =~= spec_plan_record(d@, self.registered()));
        }
        r
    }

    /// One iteration of the consumer's decision work for a drained
    /// batch: chunk every record, plan the file writes in batch order,
    /// advance the flush counter by the number of drained records, and
    /// decide whether to flush now.  A flush is due when the queue
    /// drained empty or the counter reaches `FLUSH_THRESHOLD`; flushing
    /// resets the counter.
    pub fn process_batch(&mut self, batch: Vec<LogData>, queue_empty_after: bool) -> (r: (
        Vec<WriteAction>,
        bool,
    ))
        ensures
            r.0@.map_values(|a: WriteAction| a@) == spec_chunk_batch(
                batch@.map_values(|d: LogData| d@),
                spec_effective_max(old(self).config.max_string_len as nat),
            ).map_values(|d: LogDataView| spec_plan_record(d, old(self).registered())),
            r.1 == (queue_empty_after || old(self).spec_logged() + batch@.len()
                >= FLUSH_THRESHOLD),
            r.1 ==> final(self).spec_logged() == 0,
            !r.1 ==> final(self).spec_logged() == old(self).spec_logged() + batch@.len(),
            final(self).registered() == old(self).registered(),
            final(self).spec_inited() == old(self).spec_inited(),
            final(self).config == old(self).config,
    {
        let batch_len = batch.len();
        let chunked = split_str_into_chunks(batch, self.config.max_string_len);
        let ghost chunked_views = chunked@.map_values(|d: LogData| d@);
        let mut actions: Vec<WriteAction> = Vec::new();
        let mut k: usize = 0;
        proof {
            assert(actions@.map_values(|a: WriteAction| a@) =~= chunked_views.take(0).map_values(
                |d: LogDataView| spec_plan_record(d, self.registered()),
            ));
        }
        while k < chunked.len()
            invariant
                k <= chunked@.len(),
                chunked_views == chunked@.map_values(|d: LogData| d@),
                *self == *old(self),
                actions@.map_values(|a: WriteAction| a@) == chunked_views.take(k as int).map_values(
                    |d: LogDataView| spec_plan_record(d, old(self).registered()),
                ),
            decreases chunked@.len() - k,
        {
            let a = self.plan_record(&chunked[k]);
            proof {
                assert(chunked_views.take(k + 1) =~= chunked_views.take(k as int).push(
                    chunked_views[k as int],
                ));
                assert(chunked_views.take(k + 1).map_values(
                    |d: LogDataView| spec_plan_record(d, old(self).registered()),
                ) =~= chunked_views.take(k as int).map_values(
                    |d: LogDataView| spec_plan_record(d, old(self).registered()),
                ).push(spec_plan_record(chunked_views[k as int], old(self).registered())));
                assert(actions@.push(a).map_values(|x: WriteAction| x@) =~= actions@.map_values(
                    |x: WriteAction| x@,
                ).push(a@));
            }
            actions.push(a);
            k += 1;
        }
        proof {
            assert(chunked_views.take(chunked@.len() as int) =~= chunked_views);
        }
        let counted = self.logged.saturating_add(batch_len);
        let flush = queue_empty_after || counted >= FLUSH_THRESHOLD;
        if flush {
            self.logged = 0;
        } else {
            self.logged = counted;
        }
        (actions, flush)
    }
}

/// Removing an element of a duplicate-free sequence keeps it
/// duplicate-free.
proof fn lemma_remove_keeps_no_duplicates<A>(s: Seq<A>, j: int)
    requires
        s.no_duplicates(),
        0 <= j < s.len(),
    ensures
        s.remove(j).no_duplicates(),
{
    let t = s.remove(j);
    assert forall|p: int, q: int| 0 <= p < t.len() && 0 <= q < t.len() && p != q implies t[p]
        != t[q] by {
        let sp = if p < j {
            p
        } else {
            p + 1
        };
        let sq = if q < j {
            q
        } else {
            q + 1
        };
        assert(t[p] == s[sp]);
        assert(t[q] == s[sq]);
    }
}

/// Removing the only occurrence of a value from a duplicate-free
/// sequence leaves no occurrence.
proof fn lemma_removed_unique_not_contained<A>(s: Seq<A>, j: int, v: A)
    requires
        s.no_duplicates(),
        0 <= j < s.len(),
        s[j] == v,
    ensures
        !s.remove(j).contains(v),
{
    let t = s.remove(j);
    assert forall|p: int| 0 <= p < t.len() implies t[p] != v by {
        let sp = if p < j {
            p
        } else {
            p + 1
        };
        assert(t[p] == s[sp]);
        assert(sp != j);
    }
}

/// Builds the path of a context's file: `<dir>/<tag>.log`.
pub fn context_file_path(dir: &str, tag: &str) -> (r: String)
    ensures
        r@ == dir@ + "/"@ + tag@ + ".log"@,
{
    let mut s = dir.to_owned();
    s.append("/");
    s.append(tag);
    s.append(".log");
    proof {
        assert(s@ =~= dir@ + "/"@ + tag@ + ".log"@);
    }
    s
}

/// Appends a record to the queue buffer, as the enqueue path does under
/// the queue lock.
pub fn enqueue_record(buffer: &mut Vec<LogData>, d: LogData)
    ensures
        final(buffer)@ == old(buffer)@.push(d),
{
    buffer.push(d);
}

/// Swaps the queue buffer for an empty recycled one, as the consumer's
/// drain step does under the queue lock; returns the drained batch.
pub fn take_batch(buffer: &mut Vec<LogData>, fresh: Vec<LogData>) -> (batch: Vec<LogData>)
    requires
        fresh@.len() == 0,
    ensures
        batch@ == old(buffer)@,
        final(buffer)@.len() == 0,
{
    let mut fresh = fresh;
    std::mem::swap(buffer, &mut fresh);
    fresh
}

/// Per-producer order: the queue keeps enqueue order.  If one producer
/// enqueues `a` and later `b` — with any records `mid` enqueued by
/// others in between — then `a` stands before `b` in the queue, at the
/// positions given here.
pub proof fn lemma_enqueue_order(q0: Seq<LogDataView>, a: LogDataView, mid: Seq<LogDataView>, b: LogDataView)
    ensures
        ({
            let q3 = ((q0.push(a) + mid).push(b));
            &&& q3[q0.len() as int] == a
            &&& q3[q3.len() - 1] == b
            &&& q0.len() < q3.len() - 1
        }),
{
    let q3 = ((q0.push(a) + mid).push(b));
    assert(q3[q0.len() as int] == (q0.push(a) + mid)[q0.len() as int]);
    assert((q0.push(a) + mid)[q0.len() as int] == q0.push(a)[q0.len() as int]);
}

} // verus!
