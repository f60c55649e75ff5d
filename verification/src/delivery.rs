//! Which messages of the agent a turn announces, sends and closes, and in which order.

use vstd::prelude::*;

use vstd::hash_set::StringHashSet;

use std::collections::VecDeque;

use crate::protocol::{agent_item_text, ItemView, ThreadItem};
use crate::text::{blank, is_blank};

verus! {

/// One thing to tell the output of a channel. A text with `finish` is followed by the end of its
/// message.
#[derive(Debug, PartialEq, Eq)]
pub enum Delivery {
    Start,
    Text { text: String, finish: bool },
    Finish,
}

/// The mathematical value of a [`Delivery`].
pub enum DeliveryView {
    Start,
    Text { text: Seq<char>, finish: bool },
    Finish,
}

impl View for Delivery {
    type V = DeliveryView;

    open spec fn view(&self) -> DeliveryView {
        match self {
            Delivery::Start => DeliveryView::Start,
            Delivery::Text { text, finish } => DeliveryView::Text { text: text@, finish: *finish },
            Delivery::Finish => DeliveryView::Finish,
        }
    }
}

/// The mathematical value of a list of deliveries.
pub open spec fn deliveries(list: Seq<Delivery>) -> Seq<DeliveryView> {
    list.map_values(|delivery: Delivery| delivery@)
}

/// The messages of a turn by their ids: those announced, those of them that are not closed yet, and
/// those sent.
pub struct Progress {
    pub started: StringHashSet,
    pub open: StringHashSet,
    pub sent: StringHashSet,
}

/// The mathematical value of a [`Progress`].
#[verifier::ext_equal]
pub struct ProgressView {
    pub started: Set<Seq<char>>,
    pub open: Set<Seq<char>>,
    pub sent: Set<Seq<char>>,
}

impl View for Progress {
    type V = ProgressView;

    open spec fn view(&self) -> ProgressView {
        ProgressView { started: self.started@, open: self.open@, sent: self.sent@ }
    }
}

/// A progress and what is to be delivered on the way to it.
pub struct PlanView {
    pub progress: ProgressView,
    pub list: Seq<DeliveryView>,
}

/// The progress of a turn on which nothing has happened yet.
pub open spec fn no_progress() -> ProgressView {
    ProgressView { started: Set::empty(), open: Set::empty(), sent: Set::empty() }
}

impl ProgressView {
    /// The messages that are closed.
    pub open spec fn finished(self) -> Set<Seq<char>> {
        self.started.difference(self.open)
    }

    /// Only an announced message is open, and a sent one is closed.
    pub open spec fn wf(self) -> bool {
        &&& self.started.finite()
        &&& self.sent.finite()
        &&& self.open.subset_of(self.started)
        &&& self.sent.subset_of(self.finished())
    }

    /// The start of an item: a message is announced the first time.
    pub open spec fn item_started(self, item: ItemView) -> PlanView {
        match item {
            ItemView::AgentMessage { id, text } => if self.started.contains(id) {
                PlanView { progress: self, list: Seq::empty() }
            } else {
                PlanView {
                    progress: ProgressView {
                        started: self.started.insert(id),
                        open: self.open.insert(id),
                        ..self
                    },
                    list: seq![DeliveryView::Start],
                }
            },
            ItemView::Other => PlanView { progress: self, list: Seq::empty() },
        }
    }

    /// The text of a message: announced before and closed after, unless that has been done.
    pub open spec fn message(self, id: Seq<char>, text: Seq<char>) -> PlanView {
        let body = DeliveryView::Text { text, finish: !self.finished().contains(id) };
        PlanView {
            progress: ProgressView {
                started: self.started.insert(id),
                open: self.open.remove(id),
                sent: self.sent.insert(id),
            },
            list: if self.started.contains(id) {
                seq![body]
            } else {
                seq![DeliveryView::Start, body]
            },
        }
    }

    /// The end of an item: a message with text is sent the first time; another one is closed if
    /// it is open.
    pub open spec fn item_completed(self, item: ItemView) -> PlanView {
        match item {
            ItemView::AgentMessage { id, text } => if !blank(text) && !self.sent.contains(id) {
                self.message(id, text)
            } else if self.open.contains(id) {
                PlanView {
                    progress: ProgressView { open: self.open.remove(id), ..self },
                    list: seq![DeliveryView::Finish],
                }
            } else {
                PlanView { progress: self, list: Seq::empty() }
            },
            ItemView::Other => PlanView { progress: self, list: Seq::empty() },
        }
    }

    /// The end of each item in turn.
    pub open spec fn items_completed(self, items: Seq<ItemView>) -> PlanView
        decreases items.len(),
    {
        if items.len() == 0 {
            PlanView { progress: self, list: Seq::empty() }
        } else {
            let before = self.items_completed(items.drop_last());
            let last = before.progress.item_completed(items.last());
            PlanView { progress: last.progress, list: before.list + last.list }
        }
    }

    /// The close of every message that is still open.
    pub open spec fn close_all(self) -> PlanView {
        PlanView {
            progress: ProgressView { open: Set::empty(), ..self },
            list: Seq::new(self.open.len(), |i: int| DeliveryView::Finish),
        }
    }
}

/// A message that was announced is either open or closed, and there are no more sent than closed.
pub proof fn lemma_open_messages(progress: ProgressView)
    requires
        progress.wf(),
    ensures
        progress.open.finite(),
        progress.finished().finite(),
        progress.started.len() == progress.open.len() + progress.finished().len(),
        progress.sent.len() <= progress.finished().len(),
{
    let closed = progress.finished();
    vstd::set_lib::lemma_len_subset(progress.open, progress.started);
    vstd::set_lib::lemma_len_subset(closed, progress.started);
    vstd::set_lib::lemma_len_subset(progress.sent, closed);
    vstd::set_lib::lemma_set_disjoint_lens(progress.open, closed);
    assert(progress.open + closed =~= progress.started);
}

impl Progress {
    /// Nothing announced, closed or sent.
    pub fn new() -> (progress: Self)
        ensures
            progress@ == no_progress(),
            progress@.wf(),
    {
        Progress {
            started: StringHashSet::new(),
            open: StringHashSet::new(),
            sent: StringHashSet::new(),
        }
    }

    /// Plans what the start of `item` brings.
    pub fn item_started(&mut self, item: &ThreadItem) -> (list: VecDeque<Delivery>)
        requires
            old(self)@.wf(),
        ensures
            final(self)@.wf(),
            final(self)@ == old(self)@.item_started(item@).progress,
            deliveries(list@) == old(self)@.item_started(item@).list,
    {
        let mut list: VecDeque<Delivery> = VecDeque::new();
        if let Some((id, _)) = agent_item_text(item) {
            if self.started.insert(id.to_owned()) {
                self.open.insert(id.to_owned());
                list.push_back(Delivery::Start);
            }
        }
        assert(deliveries(list@) =~= old(self)@.item_started(item@).list);
        assert(self@ =~= old(self)@.item_started(item@).progress);
        list
    }

    /// Plans the text of the message `id`.
    fn send_agent_message(&mut self, id: &str, text: &str, list: &mut VecDeque<Delivery>)
        requires
            old(self)@.open.subset_of(old(self)@.started),
        ensures
            final(self)@ == (ProgressView {
                sent: old(self)@.sent,
                ..old(self)@.message(id@, text@).progress
            }),
            deliveries(final(list)@) == deliveries(old(list)@) + old(self)@.message(
                id@,
                text@,
            ).list,
    {
        if self.started.insert(id.to_owned()) {
            self.open.insert(id.to_owned());
            list.push_back(Delivery::Start);
        }
        let finish = self.open.remove(id);
        list.push_back(Delivery::Text { text: text.to_owned(), finish });
        assert(deliveries(list@) =~= deliveries(old(list)@) + old(self)@.message(id@, text@).list);
    }

    /// Plans what the end of `item` brings, behind what is in `list`.
    fn plan_completed(&mut self, item: &ThreadItem, list: &mut VecDeque<Delivery>)
        requires
            old(self)@.wf(),
        ensures
            final(self)@.wf(),
            final(self)@ == old(self)@.item_completed(item@).progress,
            deliveries(final(list)@) == deliveries(old(list)@) + old(self)@.item_completed(
                item@,
            ).list,
    {
        if let Some((id, text)) = agent_item_text(item) {
            if !is_blank(text) && self.sent.insert(id.to_owned()) {
                self.send_agent_message(id, text, list);
            } else if self.open.remove(id) {
                list.push_back(Delivery::Finish);
            }
        }
        assert(deliveries(list@) =~= deliveries(old(list)@) + old(self)@.item_completed(item@).list);
        assert(self@ =~= old(self)@.item_completed(item@).progress);
    }

    /// Plans what the end of `item` brings.
    pub fn item_completed(&mut self, item: &ThreadItem) -> (list: VecDeque<Delivery>)
        requires
            old(self)@.wf(),
        ensures
            final(self)@.wf(),
            final(self)@ == old(self)@.item_completed(item@).progress,
            deliveries(list@) == old(self)@.item_completed(item@).list,
    {
        let mut list: VecDeque<Delivery> = VecDeque::new();
        assert(deliveries(list@) =~= Seq::empty());
        self.plan_completed(item, &mut list);
        assert(Seq::<DeliveryView>::empty() + old(self)@.item_completed(item@).list
            =~= old(self)@.item_completed(item@).list);
        list
    }

    /// Plans what the end of the items brings, one after the other.
    pub fn items_completed(&mut self, items: &Vec<ThreadItem>) -> (list: VecDeque<Delivery>)
        requires
            old(self)@.wf(),
        ensures
            final(self)@.wf(),
            final(self)@ == old(self)@.items_completed(
                items@.map_values(|item: ThreadItem| item@),
            ).progress,
            deliveries(list@) == old(self)@.items_completed(
                items@.map_values(|item: ThreadItem| item@),
            ).list,
    {
        let ghost views = items@.map_values(|item: ThreadItem| item@);
        let mut list: VecDeque<Delivery> = VecDeque::new();
        assert(deliveries(list@) =~= Seq::empty());
        for i in 0..items.len()
            invariant
                views == items@.map_values(|item: ThreadItem| item@),
                self@.wf(),
                self@ == old(self)@.items_completed(views.take(i as int)).progress,
                deliveries(list@) == old(self)@.items_completed(views.take(i as int)).list,
        {
            proof {
                assert(views.take(i + 1).drop_last() =~= views.take(i as int));
                assert(views.take(i + 1).last() == items@[i as int]@);
            }
            self.plan_completed(&items[i], &mut list);
        }
        assert(views.take(items@.len() as int) =~= views);
        list
    }

    /// Plans the close of every message that is still open.
    pub fn finish_started_agent_messages(&mut self) -> (list: VecDeque<Delivery>)
        requires
            old(self)@.wf(),
        ensures
            final(self)@.wf(),
            final(self)@ == old(self)@.close_all().progress,
            final(self)@.finished() == old(self)@.started,
            deliveries(list@) == old(self)@.close_all().list,
    {
        let count: usize = self.open.len();
        self.open.clear();
        let mut list: VecDeque<Delivery> = VecDeque::new();
        for i in 0..count
            invariant
                list@.len() == i,
                forall|j: int| 0 <= j < i ==> #[trigger] list@[j] == Delivery::Finish,
        {
            list.push_back(Delivery::Finish);
        }
        assert(deliveries(list@) =~= old(self)@.close_all().list);
        list
    }
}

} // verus!
