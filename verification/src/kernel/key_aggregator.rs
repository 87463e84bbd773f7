//! Merges the key states of all channels into one stream of key events.

use vstd::prelude::*;
use super::event;
use super::event::{BoardEvent, ComboKeyEvent, EventView, KeyPressEvent, KeyPressView, KeySource};
use super::key_list;
use super::key_list::KeyList;
use super::protocol_hid;
use super::protocol_hid::get_key_name;

verus! {

/// A key that is down, as the channel reported it. The value is the whole bit mask on the config
/// channel and the usage code on the others.
#[derive(Debug)]
pub struct PressedKeyMeta {
    pub key_index: usize,
    pub key_name: String,
    pub key_value: u16,
    pub source: KeySource,
}

impl Clone for PressedKeyMeta {
    fn clone(&self) -> (r: Self)
        ensures
            r == *self,
    {
        PressedKeyMeta {
            key_index: self.key_index,
            key_name: self.key_name.clone(),
            key_value: self.key_value,
            source: self.source,
        }
    }
}

/// Mathematical form of `PressedKeyMeta`.
pub struct MetaView {
    pub key_index: usize,
    pub key_name: Seq<char>,
    pub key_value: u16,
    pub source: KeySource,
}

impl View for PressedKeyMeta {
    type V = MetaView;

    open spec fn view(&self) -> MetaView {
        MetaView {
            key_index: self.key_index,
            key_name: self.key_name@,
            key_value: self.key_value,
            source: self.source,
        }
    }
}

/// Mathematical form of a list of keys.
pub open spec fn meta_views(list: Seq<PressedKeyMeta>) -> Seq<MetaView> {
    Seq::new(list.len(), |i: int| list[i]@)
}

/// A list of keys names the key `k`.
pub open spec fn names_key(list: Seq<MetaView>, k: usize) -> bool {
    exists|i: int| 0 <= i < list.len() && (#[trigger] list[i]).key_index == k
}

/// The last entry of a list for the key `k`.
pub open spec fn last_entry(list: Seq<MetaView>, k: usize) -> Option<MetaView>
    decreases list.len(),
{
    if list.len() == 0 {
        None
    } else if list.last().key_index == k {
        Some(list.last())
    } else {
        last_entry(list.drop_last(), k)
    }
}

/// The elements of `a` that are not in `b`, in order.
pub open spec fn minus(a: Seq<usize>, b: Seq<usize>) -> Seq<usize>
    decreases a.len(),
{
    if a.len() == 0 {
        a
    } else if b.contains(a.last()) {
        minus(a.drop_last(), b)
    } else {
        minus(a.drop_last(), b).push(a.last())
    }
}

/// The key `k` went up; the value 0 marks a release.
pub open spec fn release_of(k: usize, source: KeySource) -> EventView {
    EventView::KeyPress(
        KeyPressView {
            key_index: k,
            key_name: protocol_hid::key_name(k),
            key_value: 0,
            pressed: false,
            source,
        },
    )
}

/// The key of an entry went down.
pub open spec fn press_of(m: MetaView) -> EventView {
    EventView::KeyPress(
        KeyPressView {
            key_index: m.key_index,
            key_name: m.key_name,
            key_value: m.key_value,
            pressed: true,
            source: m.source,
        },
    )
}

/// One release per key that was down in `before` and is not in `after`.
pub open spec fn release_events(before: Seq<usize>, after: Seq<usize>, source: KeySource) -> Seq<
    EventView,
> {
    let gone = minus(before, after);
    Seq::new(gone.len(), |i: int| release_of(gone[i], source))
}

/// One press per key that is down in `after` and was not in `before`, with the entry that the
/// channel reported last.
pub open spec fn press_events(
    before: Seq<usize>,
    after: Seq<usize>,
    reported: Seq<MetaView>,
) -> Seq<EventView> {
    let new = minus(after, before);
    Seq::new(new.len(), |i: int| press_of(last_entry(reported, new[i]).unwrap()))
}

/// The combination event: when a key goes down while others are, it lists all keys that are down.
pub open spec fn combo_events(before: Seq<usize>, after: Seq<usize>, mask: Option<u8>) -> Seq<
    EventView,
> {
    if after.len() > 1 && minus(after, before).len() > 0 {
        seq![
            EventView::ComboKey {
                keys: after,
                key_names: Seq::new(after.len(), |i: int| protocol_hid::key_name(after[i])),
                config_mask: mask,
            },
        ]
    } else {
        Seq::empty()
    }
}

/// Events of a report that changes the keys that are down from `before` to `after`: releases in
/// ascending order, then presses in ascending order, then the combination.
pub open spec fn change_events(
    source: KeySource,
    before: Seq<usize>,
    after: Seq<usize>,
    reported: Seq<MetaView>,
    mask: Option<u8>,
) -> Seq<EventView> {
    release_events(before, after, source) + press_events(before, after, reported) + combo_events(
        before,
        after,
        mask,
    )
}

/// Key state of all channels together.
pub struct KeyStateAggregator {
    config: Vec<PressedKeyMeta>,
    consumer: Vec<PressedKeyMeta>,
    gatt: Vec<PressedKeyMeta>,
    all_pressed: KeyList,
    last_config_mask: Option<u8>,
}

/// Mathematical form of the aggregator: what each channel holds, all keys that are down, and the
/// last mask of the config channel.
pub struct AggregatorView {
    pub config: Seq<MetaView>,
    pub consumer: Seq<MetaView>,
    pub gatt: Seq<MetaView>,
    pub all_pressed: Seq<usize>,
    pub last_config_mask: Option<u8>,
}

impl AggregatorView {
    /// Some channel holds the key `k`.
    pub open spec fn holds(&self, k: usize) -> bool {
        names_key(self.config, k) || names_key(self.consumer, k) || names_key(self.gatt, k)
    }

    /// The list of all keys is the ascending union of what the channels hold.
    pub open spec fn inv(&self) -> bool {
        &&& key_list::ascending(self.all_pressed)
        &&& forall|k: usize| #[trigger] self.all_pressed.contains(k) <==> self.holds(k)
    }

}

/// Every channel empty.
pub open spec fn empty_aggregator() -> AggregatorView {
    AggregatorView {
        config: Seq::empty(),
        consumer: Seq::empty(),
        gatt: Seq::empty(),
        all_pressed: Seq::empty(),
        last_config_mask: None,
    }
}

/// The keys that some channel holds, in ascending order.
pub open spec fn keys_down(
    config: Seq<MetaView>,
    consumer: Seq<MetaView>,
    gatt: Seq<MetaView>,
) -> Seq<usize> {
    choose|q: Seq<usize>|
        #![trigger key_list::ascending(q)]
        key_list::ascending(q) && forall|k: usize|
            #[trigger] q.contains(k) <==> names_key(config, k) || names_key(consumer, k) || names_key(
                gatt,
                k,
            )
}

/// The aggregator after `source` reported `keys`.
pub open spec fn after_report(
    a: AggregatorView,
    source: KeySource,
    keys: Seq<MetaView>,
    config_mask: Option<u8>,
) -> AggregatorView {
    let config = if source == KeySource::Config {
        keys
    } else {
        a.config
    };
    let consumer = if source == KeySource::Consumer {
        keys
    } else {
        a.consumer
    };
    let gatt = if source == KeySource::Gatt {
        keys
    } else {
        a.gatt
    };
    AggregatorView {
        config,
        consumer,
        gatt,
        all_pressed: keys_down(config, consumer, gatt),
        last_config_mask: if source == KeySource::Config {
            config_mask
        } else {
            a.last_config_mask
        },
    }
}

/// The aggregator and the events after `source` reported the first `n` of several key sets.
pub open spec fn after_batches(
    a: AggregatorView,
    source: KeySource,
    batches: Seq<Seq<MetaView>>,
    n: int,
) -> (AggregatorView, Seq<EventView>)
    decreases n,
{
    if n <= 0 {
        (a, Seq::empty())
    } else {
        let (prior, events) = after_batches(a, source, batches, n - 1);
        let next = after_report(prior, source, batches[n - 1], None);
        (
            next,
            events + change_events(
                source,
                prior.all_pressed,
                next.all_pressed,
                batches[n - 1],
                next.last_config_mask,
            ),
        )
    }
}

/// The list of all keys that an aggregator keeps is the one that its channels determine.
pub proof fn lemma_keys_down(a: AggregatorView)
    requires
        a.inv(),
    ensures
        a.all_pressed == keys_down(a.config, a.consumer, a.gatt),
{
    let q = a.all_pressed;
    assert(key_list::ascending(q) && forall|k: usize|
        #[trigger] q.contains(k) <==> names_key(a.config, k) || names_key(a.consumer, k) || names_key(
            a.gatt,
            k,
        ));
    let d = keys_down(a.config, a.consumer, a.gatt);
    assert(key_list::ascending(d));
    assert forall|k: usize| q.contains(k) <==> d.contains(k) by {}
    key_list::law_ascending_lists_are_determined(q, d);
}

/// An ascending list with one more key.
spec fn inserted(q: Seq<usize>, k: usize) -> Seq<usize>
    decreases q.len(),
{
    if q.len() == 0 {
        seq![k]
    } else if q.last() < k {
        q.push(k)
    } else if q.last() == k {
        q
    } else {
        inserted(q.drop_last(), k).push(q.last())
    }
}

proof fn lemma_inserted(q: Seq<usize>, k: usize)
    requires
        key_list::ascending(q),
    ensures
        key_list::ascending(inserted(q, k)),
        forall|x: usize| #[trigger] inserted(q, k).contains(x) <==> q.contains(x) || x == k,
    decreases q.len(),
{
    let r = inserted(q, k);
    if q.len() == 0 {
        assert(r[0] == k);
    } else if q.last() < k {
        assert forall|x: usize| #[trigger] r.contains(x) <==> q.contains(x) || x == k by {
            if q.contains(x) {
                let i = q.index_of(x);
                assert(r[i] == x);
            }
            assert(r[q.len() as int] == k);
        }
    } else if q.last() == k {
        assert(q[q.len() - 1] == k);
    } else {
        let p = q.drop_last();
        let m = inserted(p, k);
        lemma_inserted(p, k);
        assert forall|x: usize| #[trigger] r.contains(x) <==> q.contains(x) || x == k by {
            if q.contains(x) {
                let i = q.index_of(x);
                if i < p.len() {
                    assert(p[i] == x);
                    assert(m.contains(x));
                }
            }
            if p.contains(x) {
                let i = p.index_of(x);
                assert(q[i] == x);
            }
            if m.contains(x) {
                let i = m.index_of(x);
                assert(r[i] == x);
            }
            if r.contains(x) {
                let i = r.index_of(x);
                if i < m.len() {
                    assert(m[i] == x);
                    assert(m.contains(x));
                } else {
                    assert(q[q.len() - 1] == x);
                }
            }
            assert(m.contains(k));
            assert(r[m.len() as int] == q.last());
        }
        assert forall|i: int, j: int| 0 <= i < j < r.len() implies r[i] < r[j] by {
            if j == m.len() {
                assert(m.contains(m[i]));
                if m[i] != k {
                    let h = p.index_of(m[i]);
                    assert(q[h] < q[q.len() - 1]);
                }
            }
        }
    }
}

/// An ascending list extended by the keys that a channel names.
proof fn lemma_union_exists(q: Seq<usize>, list: Seq<MetaView>) -> (r: Seq<usize>)
    requires
        key_list::ascending(q),
    ensures
        key_list::ascending(r),
        forall|k: usize| #[trigger] r.contains(k) <==> q.contains(k) || names_key(list, k),
    decreases list.len(),
{
    if list.len() == 0 {
        q
    } else {
        let p = list.drop_last();
        let m = lemma_union_exists(q, p);
        let last = list.last().key_index;
        lemma_inserted(m, last);
        let r = inserted(m, last);
        assert forall|k: usize| #[trigger] r.contains(k) <==> q.contains(k) || names_key(list, k) by {
            if names_key(list, k) {
                let i = choose|i: int| 0 <= i < list.len() && (#[trigger] list[i]).key_index == k;
                if i < p.len() {
                    assert(p[i].key_index == k);
                }
            }
            if names_key(p, k) {
                let i = choose|i: int| 0 <= i < p.len() && (#[trigger] p[i]).key_index == k;
                assert(list[i].key_index == k);
            }
            assert(list[list.len() - 1].key_index == last);
            assert(m.contains(k) <==> q.contains(k) || names_key(p, k));
        }
        r
    }
}

/// Every report leaves the list of all keys the ascending union of what the channels hold.
pub proof fn lemma_after_report_inv(
    a: AggregatorView,
    source: KeySource,
    keys: Seq<MetaView>,
    mask: Option<u8>,
)
    ensures
        after_report(a, source, keys, mask).inv(),
{
    let next = after_report(a, source, keys, mask);
    let r1 = lemma_union_exists(Seq::empty(), next.config);
    let r2 = lemma_union_exists(r1, next.consumer);
    let r3 = lemma_union_exists(r2, next.gatt);
    assert forall|k: usize| #[trigger] r3.contains(k) <==> names_key(next.config, k) || names_key(
        next.consumer,
        k,
    ) || names_key(next.gatt, k) by {
        assert(r2.contains(k) <==> r1.contains(k) || names_key(next.consumer, k));
    }
    assert(key_list::ascending(r3));
    assert(key_list::ascending(keys_down(next.config, next.consumer, next.gatt)));
}

impl View for KeyStateAggregator {
    type V = AggregatorView;

    closed spec fn view(&self) -> AggregatorView {
        AggregatorView {
            config: meta_views(self.config@),
            consumer: meta_views(self.consumer@),
            gatt: meta_views(self.gatt@),
            all_pressed: self.all_pressed@,
            last_config_mask: self.last_config_mask,
        }
    }
}

fn append_keys(list: &mut KeyList, metas: &Vec<PressedKeyMeta>)
    ensures
        forall|k: usize| #[trigger] final(list)@.contains(k) <==> old(list)@.contains(k) || names_key(
            meta_views(metas@),
            k,
        ),
{
    let ghost before = list@;
    let ghost views = meta_views(metas@);
    let mut i: usize = 0;
    while i < metas.len()
        invariant
            i <= metas@.len(),
            views == meta_views(metas@),
            forall|k: usize| #[trigger] list@.contains(k) <==> before.contains(k) || exists|j: int|
                0 <= j < i && (#[trigger] views[j]).key_index == k,
        decreases metas@.len() - i,
    {
        let ghost prior = list@;
        list.push(metas[i].key_index);
        proof {
            let x = metas@[i as int].key_index;
            assert(views[i as int].key_index == x);
            assert(list@ == prior.push(x));
            assert forall|k: usize| #[trigger] list@.contains(k) <==> before.contains(k) || exists|j: int|
                0 <= j < i + 1 && (#[trigger] views[j]).key_index == k by {
                if list@.contains(k) {
                    let p = choose|p: int| 0 <= p < list@.len() && list@[p] == k;
                    if p < prior.len() {
                        assert(prior[p] == k);
                        assert(prior.contains(k));
                    }
                }
                if prior.contains(k) {
                    let p = choose|p: int| 0 <= p < prior.len() && prior[p] == k;
                    assert(list@[p] == k);
                }
                if k == x {
                    assert(list@[prior.len() as int] == k);
                }
            }
        }
        i = i + 1;
    }
}

/// The last entry of a list for a key.
fn find_last<'a>(metas: &'a Vec<PressedKeyMeta>, key: usize) -> (r: Option<&'a PressedKeyMeta>)
    ensures
        match r {
            Some(m) => last_entry(meta_views(metas@), key) == Some(m@),
            None => last_entry(meta_views(metas@), key) is None,
        },
{
    let mut i: usize = metas.len();
    let ghost views = meta_views(metas@);
    assert(views.subrange(0, i as int) =~= views);
    while i > 0
        invariant
            i <= metas@.len(),
            views == meta_views(metas@),
            last_entry(views, key) == last_entry(views.subrange(0, i as int), key),
        decreases i,
    {
        assert(views.subrange(0, i as int).drop_last() =~= views.subrange(0, i - 1));
        if metas[i - 1].key_index == key {
            return Some(&metas[i - 1]);
        }
        i = i - 1;
    }
    None
}

proof fn lemma_last_entry_exists(list: Seq<MetaView>, k: usize)
    ensures
        names_key(list, k) <==> last_entry(list, k) is Some,
        last_entry(list, k) matches Some(m) ==> m.key_index == k,
    decreases list.len(),
{
    if list.len() > 0 {
        let p = list.drop_last();
        lemma_last_entry_exists(p, k);
        if list.last().key_index == k {
            assert(list[list.len() - 1].key_index == k);
        } else {
            if names_key(list, k) {
                let i = choose|i: int| 0 <= i < list.len() && (#[trigger] list[i]).key_index == k;
                assert(p[i].key_index == k);
            }
            if names_key(p, k) {
                let i = choose|i: int| 0 <= i < p.len() && (#[trigger] p[i]).key_index == k;
                assert(list[i].key_index == k);
            }
        }
    }
}

/// The difference holds exactly the elements that only the first list has, and stays ascending.
pub proof fn lemma_minus(a: Seq<usize>, b: Seq<usize>)
    ensures
        forall|k: usize| #[trigger] minus(a, b).contains(k) <==> a.contains(k) && !b.contains(k),
        key_list::ascending(a) ==> key_list::ascending(minus(a, b)),
    decreases a.len(),
{
    if a.len() > 0 {
        let p = a.drop_last();
        lemma_minus(p, b);
        let m = minus(a, b);
        let n = minus(p, b);
        assert forall|k: usize| #[trigger] m.contains(k) <==> a.contains(k) && !b.contains(k) by {
            assert(n.contains(k) <==> p.contains(k) && !b.contains(k));
            if a.contains(k) {
                let i = choose|i: int| 0 <= i < a.len() && a[i] == k;
                if i < p.len() {
                    assert(p[i] == k);
                }
            }
            if p.contains(k) {
                let i = choose|i: int| 0 <= i < p.len() && p[i] == k;
                assert(a[i] == k);
            }
            if !b.contains(a.last()) {
                if m.contains(k) {
                    let i = choose|i: int| 0 <= i < m.len() && m[i] == k;
                    if i < n.len() {
                        assert(n[i] == k);
                    }
                }
                if n.contains(k) {
                    let i = choose|i: int| 0 <= i < n.len() && n[i] == k;
                    assert(m[i] == k);
                }
                assert(m[n.len() as int] == a.last());
            }
        }
        if key_list::ascending(a) {
            assert(key_list::ascending(p));
            if !b.contains(a.last()) {
                assert forall|i: int, j: int| 0 <= i < j < m.len() implies m[i] < m[j] by {
                    if j == m.len() - 1 {
                        assert(n.contains(n[i]));
                        assert(p.contains(n[i]));
                        let q = choose|q: int| 0 <= q < p.len() && p[q] == n[i];
                        assert(a[q] < a[a.len() - 1]);
                    }
                }
            }
        }
    }
}

/// The elements of one list that are not in the other.
fn difference(a: &KeyList, b: &KeyList) -> (r: KeyList)
    ensures
        r@ == minus(a@, b@),
{
    let mut out = KeyList::new();
    let mut i: usize = 0;
    while i < a.len()
        invariant
            i <= a@.len(),
            out@ == minus(a@.subrange(0, i as int), b@),
        decreases a@.len() - i,
    {
        let k: usize = a.at(i);
        assert(a@.subrange(0, i + 1).drop_last() =~= a@.subrange(0, i as int));
        assert(a@.subrange(0, i + 1).last() == k);
        if !b.contains(k) {
            out.push(k);
        }
        i = i + 1;
    }
    assert(a@.subrange(0, a@.len() as int) =~= a@);
    out
}

impl KeyStateAggregator {
    /// Every channel empty.
    pub fn new() -> (r: Self)
        ensures
            r@.inv(),
            r@ == empty_aggregator(),
    {
        let r = KeyStateAggregator {
            config: Vec::new(),
            consumer: Vec::new(),
            gatt: Vec::new(),
            all_pressed: KeyList::new(),
            last_config_mask: None,
        };
        assert(r@.config =~= Seq::empty());
        assert(r@.consumer =~= Seq::empty());
        assert(r@.gatt =~= Seq::empty());
        r
    }

    /// Takes in **all** keys that a channel currently holds down (none for a release) and returns
    /// the events that follow.
    pub fn report_change(
        &mut self,
        source: KeySource,
        pressed_keys: Vec<PressedKeyMeta>,
        config_mask: Option<u8>,
    ) -> (events: Vec<BoardEvent>)
        requires
            old(self)@.inv(),
        ensures
            final(self)@.inv(),
            final(self)@ == after_report(old(self)@, source, meta_views(pressed_keys@), config_mask),
            event::event_views(events@) == change_events(
                source,
                old(self)@.all_pressed,
                final(self)@.all_pressed,
                meta_views(pressed_keys@),
                final(self)@.last_config_mask,
            ),
    {
        let ghost reported = meta_views(pressed_keys@);
        let ghost before = self@.all_pressed;
        if source == KeySource::Config {
            self.last_config_mask = config_mask;
        }
        match source {
            KeySource::Config => {
                self.config = pressed_keys;
            },
            KeySource::Consumer => {
                self.consumer = pressed_keys;
            },
            KeySource::Gatt => {
                self.gatt = pressed_keys;
            },
        }
        let mut all_pressed = KeyList::new();
        append_keys(&mut all_pressed, &self.config);
        append_keys(&mut all_pressed, &self.consumer);
        append_keys(&mut all_pressed, &self.gatt);
        all_pressed.sort_and_dedup();
        let newly_pressed = difference(&all_pressed, &self.all_pressed);
        let released = difference(&self.all_pressed, &all_pressed);
        let ghost after = all_pressed@;
        proof {
            lemma_minus(after, before);
        }
        let mut events: Vec<BoardEvent> = Vec::new();
        let mut i: usize = 0;
        while i < released.len()
            invariant
                i <= released@.len(),
                released@ == minus(before, after),
                events@.len() == i,
                forall|j: int| 0 <= j < i ==> (#[trigger] events@[j])@ == release_of(released@[j], source),
            decreases released@.len() - i,
        {
            let key_index: usize = released.at(i);
            events.push(
                BoardEvent::KeyPress(
                    KeyPressEvent {
                        key_index,
                        key_name: get_key_name(key_index).to_string(),
                        key_value: 0x0000,
                        pressed: false,
                        source,
                    },
                ),
            );
            i = i + 1;
        }
        let ghost releases = release_events(before, after, source);
        assert(event::event_views(events@) =~= releases);
        let reporting: &Vec<PressedKeyMeta> = match source {
            KeySource::Config => &self.config,
            KeySource::Consumer => &self.consumer,
            KeySource::Gatt => &self.gatt,
        };
        let ghost presses = press_events(before, after, reported);
        let mut i: usize = 0;
        while i < newly_pressed.len()
            invariant
                i <= newly_pressed@.len(),
                newly_pressed@ == minus(after, before),
                presses == press_events(before, after, reported),
                meta_views(reporting@) == reported,
                forall|k: usize| #[trigger] newly_pressed@.contains(k) ==> names_key(reported, k),
                event::event_views(events@) == releases + presses.subrange(0, i as int),
            decreases newly_pressed@.len() - i,
        {
            let key_index: usize = newly_pressed.at(i);
            proof {
                assert(newly_pressed@.contains(key_index));
                lemma_last_entry_exists(reported, key_index);
            }
            let ghost prior = events@;
            if let Some(meta) = find_last(reporting, key_index) {
                events.push(
                    BoardEvent::KeyPress(
                        KeyPressEvent {
                            key_index: meta.key_index,
                            key_name: meta.key_name.clone(),
                            key_value: meta.key_value,
                            pressed: true,
                            source: meta.source,
                        },
                    ),
                );
            }
            proof {
                assert(presses[i as int] == press_of(last_entry(reported, key_index).unwrap()));
                assert(events@.last()@ == presses[i as int]);
                assert(event::event_views(events@) =~= event::event_views(prior).push(presses[i as int]));
                assert(presses.subrange(0, i + 1) =~= presses.subrange(0, i as int).push(presses[i as int]));
            }
            i = i + 1;
        }
        assert(presses.subrange(0, presses.len() as int) =~= presses);
        let ghost so_far = events@;
        if all_pressed.len() > 1 && newly_pressed.len() > 0 {
            let keys: Vec<usize> = all_pressed.to_vec();
            let mut key_names: Vec<String> = Vec::with_capacity(keys.len());
            let mut i: usize = 0;
            while i < keys.len()
                invariant
                    i <= keys@.len(),
                    key_names@.len() == i,
                    forall|j: int| 0 <= j < i ==> (#[trigger] key_names@[j])@ == protocol_hid::key_name(keys@[j]),
                decreases keys@.len() - i,
            {
                key_names.push(get_key_name(keys[i]).to_string());
                i = i + 1;
            }
            assert(event::texts(key_names@) =~= Seq::new(
                after.len(),
                |i: int| protocol_hid::key_name(after[i]),
            ));
            events.push(
                BoardEvent::ComboKey(
                    ComboKeyEvent { keys, key_names, config_mask: self.last_config_mask },
                ),
            );
            assert(event::event_views(events@) =~= event::event_views(so_far).push(events@.last()@));
        }
        self.all_pressed = all_pressed;
        proof {
            lemma_keys_down(self@);
            assert(event::event_views(events@) =~= event::event_views(so_far) + combo_events(
                before,
                after,
                self@.last_config_mask,
            ));
        }
        events
    }

    /// Takes in several key sets of one channel, one after another.
    pub fn report_batches(
        &mut self,
        source: KeySource,
        batches: &Vec<Vec<PressedKeyMeta>>,
    ) -> (events: Vec<BoardEvent>)
        requires
            old(self)@.inv(),
        ensures
            final(self)@.inv(),
            (final(self)@, event::event_views(events@)) == after_batches(
                old(self)@,
                source,
                batch_views(batches@),
                batches@.len() as int,
            ),
    {
        let ghost views = batch_views(batches@);
        let ghost start = self@;
        let mut events: Vec<BoardEvent> = Vec::new();
        assert(event::event_views(events@) =~= Seq::empty());
        let mut i: usize = 0;
        while i < batches.len()
            invariant
                i <= batches@.len(),
                views == batch_views(batches@),
                self@.inv(),
                (self@, event::event_views(events@)) == after_batches(start, source, views, i as int),
            decreases batches@.len() - i,
        {
            let ghost before = events@;
            let mut more: Vec<BoardEvent> = self.report_change(source, clone_metas(&batches[i]), None);
            let ghost added = more@;
            events.append(&mut more);
            assert(event::event_views(events@) =~= event::event_views(before) + event::event_views(
                added,
            ));
            assert(views[i as int] == meta_views(batches@[i as int]@));
            i = i + 1;
        }
        events
    }
}

/// Mathematical form of several key sets.
pub open spec fn batch_views(batches: Seq<Vec<PressedKeyMeta>>) -> Seq<Seq<MetaView>> {
    Seq::new(batches.len(), |i: int| meta_views(batches[i]@))
}

/// Copies a list of keys.
pub fn clone_metas(list: &Vec<PressedKeyMeta>) -> (r: Vec<PressedKeyMeta>)
    ensures
        r@ == list@,
{
    let mut out: Vec<PressedKeyMeta> = Vec::with_capacity(list.len());
    let mut i: usize = 0;
    while i < list.len()
        invariant
            i <= list@.len(),
            out@ == list@.subrange(0, i as int),
        decreases list@.len() - i,
    {
        out.push(list[i].clone());
        assert(list@.subrange(0, i + 1) =~= list@.subrange(0, i as int).push(list@[i as int]));
        i = i + 1;
    }
    assert(list@.subrange(0, list@.len() as int) =~= list@);
    out
}

/// A report that leaves the set of keys as it was causes no event.
pub proof fn law_unchanged_keys_cause_no_event(
    source: KeySource,
    keys: Seq<usize>,
    reported: Seq<MetaView>,
    mask: Option<u8>,
)
    ensures
        change_events(source, keys, keys, reported, mask) == Seq::<EventView>::empty(),
{
    lemma_minus(keys, keys);
    let gone = minus(keys, keys);
    if gone.len() > 0 {
        assert(gone.contains(gone[0]));
    }
    assert(change_events(source, keys, keys, reported, mask) =~= Seq::empty());
}

/// Letting go of everything reports exactly one release per key that was down, and nothing else.
pub proof fn law_letting_go_releases_every_key(
    source: KeySource,
    keys: Seq<usize>,
    mask: Option<u8>,
)
    ensures
        change_events(source, keys, Seq::empty(), Seq::empty(), mask) == Seq::new(
            keys.len(),
            |i: int| release_of(keys[i], source),
        ),
    decreases keys.len(),
{
    let none = Seq::<usize>::empty();
    lemma_minus_nothing(keys);
    assert(change_events(source, keys, none, Seq::empty(), mask) =~= Seq::new(
        keys.len(),
        |i: int| release_of(keys[i], source),
    ));
}

proof fn lemma_minus_nothing(a: Seq<usize>)
    ensures
        minus(a, Seq::empty()) == a,
    decreases a.len(),
{
    if a.len() > 0 {
        lemma_minus_nothing(a.drop_last());
        assert(a.drop_last().push(a.last()) =~= a);
    }
}

/// A key that is down before and after a report is neither pressed nor released by it.
pub proof fn law_a_held_key_is_left_alone(
    source: KeySource,
    before: Seq<usize>,
    after: Seq<usize>,
    k: usize,
)
    requires
        before.contains(k),
        after.contains(k),
    ensures
        !minus(before, after).contains(k),
        !minus(after, before).contains(k),
{
    lemma_minus(before, after);
    lemma_minus(after, before);
}

/// After a report, a key is down exactly when some channel holds it: a channel that lets go of a
/// key does not release it while another one holds it, and only a key that the channel reported
/// can be newly pressed.
pub proof fn law_a_key_is_down_while_any_channel_holds_it(
    a: AggregatorView,
    source: KeySource,
    keys: Seq<MetaView>,
    mask: Option<u8>,
    k: usize,
)
    requires
        a.inv(),
    ensures
        ({
            let next = after_report(a, source, keys, mask);
            &&& next.all_pressed.contains(k) <==> next.holds(k)
            &&& minus(a.all_pressed, next.all_pressed).contains(k) <==> a.holds(k) && !next.holds(k)
            &&& minus(next.all_pressed, a.all_pressed).contains(k) ==> names_key(keys, k)
        }),
{
    let next = after_report(a, source, keys, mask);
    lemma_after_report_inv(a, source, keys, mask);
    lemma_minus(a.all_pressed, next.all_pressed);
    lemma_minus(next.all_pressed, a.all_pressed);
}

/// The event says that the key `k` went up.
pub open spec fn is_release(e: EventView, k: usize) -> bool {
    e matches EventView::KeyPress(p) && p.key_index == k && !p.pressed
}

/// The event is about keys: one key, or a combination.
pub open spec fn is_key_event(e: EventView) -> bool {
    e is KeyPress || e is ComboKey
}

/// A key is reported as released exactly when it was down before and is not after.
pub proof fn law_a_release_is_reported_iff_the_key_went_up(
    source: KeySource,
    before: Seq<usize>,
    after: Seq<usize>,
    reported: Seq<MetaView>,
    mask: Option<u8>,
    k: usize,
)
    ensures
        before.contains(k) && !after.contains(k) ==> change_events(
            source,
            before,
            after,
            reported,
            mask,
        ).contains(release_of(k, source)),
        forall|e: EventView|
            #[trigger] change_events(source, before, after, reported, mask).contains(e) && is_release(
                e,
                k,
            ) ==> before.contains(k) && !after.contains(k),
{
    let gone = minus(before, after);
    let released = release_events(before, after, source);
    let pressed = press_events(before, after, reported);
    let combo = combo_events(before, after, mask);
    let all = change_events(source, before, after, reported, mask);
    lemma_minus(before, after);
    if before.contains(k) && !after.contains(k) {
        assert(gone.contains(k));
        let i = gone.index_of(k);
        assert(released[i] == release_of(k, source));
        assert(all[i] == release_of(k, source));
    }
    assert forall|e: EventView|
        #[trigger] all.contains(e) && is_release(e, k) implies before.contains(k) && !after.contains(
        k,
    ) by {
        let i = all.index_of(e);
        if i < released.len() {
            assert(all[i] == released[i]);
            assert(gone[i] == k);
            assert(gone.contains(k));
        } else if i < released.len() + pressed.len() {
            assert(all[i] == pressed[i - released.len()]);
        } else {
            assert(all[i] == combo[i - released.len() - pressed.len()]);
        }
    }
}

/// Reports of keys cause only key events.
pub proof fn lemma_batches_cause_key_events(
    a: AggregatorView,
    source: KeySource,
    batches: Seq<Seq<MetaView>>,
    n: int,
)
    ensures
        forall|e: EventView| #[trigger]
            after_batches(a, source, batches, n).1.contains(e) ==> is_key_event(e),
    decreases n,
{
    let all = after_batches(a, source, batches, n).1;
    if n > 0 {
        lemma_batches_cause_key_events(a, source, batches, n - 1);
        let (prior, events) = after_batches(a, source, batches, n - 1);
        let next = after_report(prior, source, batches[n - 1], None);
        lemma_reports_cause_key_events(
            source,
            prior.all_pressed,
            next.all_pressed,
            batches[n - 1],
            next.last_config_mask,
        );
        let more = change_events(
            source,
            prior.all_pressed,
            next.all_pressed,
            batches[n - 1],
            next.last_config_mask,
        );
        assert forall|e: EventView| #[trigger] all.contains(e) implies is_key_event(e) by {
            let i = all.index_of(e);
            if i < events.len() {
                assert(events[i] == e);
                assert(events.contains(e));
            } else {
                assert(more[i - events.len()] == e);
                assert(more.contains(e));
            }
        }
    }
}

/// A report of keys causes only key events.
pub proof fn lemma_reports_cause_key_events(
    source: KeySource,
    before: Seq<usize>,
    after: Seq<usize>,
    reported: Seq<MetaView>,
    mask: Option<u8>,
)
    ensures
        forall|e: EventView| #[trigger]
            change_events(source, before, after, reported, mask).contains(e) ==> is_key_event(e),
{
    let released = release_events(before, after, source);
    let pressed = press_events(before, after, reported);
    let combo = combo_events(before, after, mask);
    let all = change_events(source, before, after, reported, mask);
    assert forall|e: EventView| #[trigger] all.contains(e) implies is_key_event(e) by {
        let i = all.index_of(e);
        if i < released.len() {
            assert(all[i] == released[i]);
        } else if i < released.len() + pressed.len() {
            assert(all[i] == pressed[i - released.len()]);
        } else {
            assert(all[i] == combo[i - released.len() - pressed.len()]);
        }
    }
}

/// A key that every reported set of a channel still names is released by none of the reports.
pub proof fn law_a_key_named_throughout_is_not_released(
    a: AggregatorView,
    source: KeySource,
    batches: Seq<Seq<MetaView>>,
    n: int,
    k: usize,
)
    requires
        a.inv(),
        0 <= n <= batches.len(),
        forall|b: int| 0 <= b < batches.len() ==> names_key(#[trigger] batches[b], k),
    ensures
        after_batches(a, source, batches, n).0.inv(),
        forall|e: EventView| #[trigger]
            after_batches(a, source, batches, n).1.contains(e) ==> !is_release(e, k),
    decreases n,
{
    let all = after_batches(a, source, batches, n).1;
    if n > 0 {
        law_a_key_named_throughout_is_not_released(a, source, batches, n - 1, k);
        let (prior, events) = after_batches(a, source, batches, n - 1);
        let next = after_report(prior, source, batches[n - 1], None);
        lemma_after_report_inv(prior, source, batches[n - 1], None);
        assert(names_key(batches[n - 1], k));
        assert(next.holds(k));
        assert(next.all_pressed.contains(k));
        law_a_release_is_reported_iff_the_key_went_up(
            source,
            prior.all_pressed,
            next.all_pressed,
            batches[n - 1],
            next.last_config_mask,
            k,
        );
        let more = change_events(
            source,
            prior.all_pressed,
            next.all_pressed,
            batches[n - 1],
            next.last_config_mask,
        );
        assert forall|e: EventView| #[trigger] all.contains(e) implies !is_release(e, k) by {
            let i = all.index_of(e);
            if i < events.len() {
                assert(events[i] == e);
                assert(events.contains(e));
            } else {
                assert(more[i - events.len()] == e);
                assert(more.contains(e));
            }
        }
    }
}

/// The events that a report of `source` causes.
pub open spec fn report_events(
    a: AggregatorView,
    source: KeySource,
    keys: Seq<MetaView>,
    mask: Option<u8>,
) -> Seq<EventView> {
    let next = after_report(a, source, keys, mask);
    change_events(source, a.all_pressed, next.all_pressed, keys, next.last_config_mask)
}

/// A report replaces what its own channel holds and leaves the other channels alone; only the
/// config channel brings a mask.
pub proof fn law_a_report_replaces_its_own_channel(
    a: AggregatorView,
    source: KeySource,
    keys: Seq<MetaView>,
    mask: Option<u8>,
)
    ensures
        ({
            let next = after_report(a, source, keys, mask);
            match source {
                KeySource::Config => next.config == keys && next.consumer == a.consumer
                    && next.gatt == a.gatt && next.last_config_mask == mask,
                KeySource::Consumer => next.config == a.config && next.consumer == keys
                    && next.gatt == a.gatt && next.last_config_mask == a.last_config_mask,
                KeySource::Gatt => next.config == a.config && next.consumer == a.consumer
                    && next.gatt == keys && next.last_config_mask == a.last_config_mask,
            }
        }),
{
}

/// The keys that are down, as the aggregator lists them, are exactly those that a channel holds,
/// in ascending order.
pub proof fn law_the_list_of_keys_is_the_union_of_the_channels(
    a: AggregatorView,
    source: KeySource,
    keys: Seq<MetaView>,
    mask: Option<u8>,
)
    ensures
        ({
            let next = after_report(a, source, keys, mask);
            &&& forall|k: usize| #[trigger]
                next.all_pressed.contains(k) <==> (exists|i: int|
                    0 <= i < next.config.len() && (#[trigger] next.config[i]).key_index == k) || (
                exists|i: int|
                    0 <= i < next.consumer.len() && (#[trigger] next.consumer[i]).key_index == k)
                    || (exists|i: int|
                    0 <= i < next.gatt.len() && (#[trigger] next.gatt[i]).key_index == k)
            &&& forall|i: int, j: int|
                0 <= i < j < next.all_pressed.len() ==> next.all_pressed[i] < next.all_pressed[j]
        }),
{
    lemma_after_report_inv(a, source, keys, mask);
}

/// Two different keys are down.
pub open spec fn two_down(a: AggregatorView) -> bool {
    exists|j: usize, k: usize| j != k && #[trigger] a.holds(j) && #[trigger] a.holds(k)
}

/// Some key is down that was not.
pub open spec fn one_more_down(before: AggregatorView, after: AggregatorView) -> bool {
    exists|k: usize| #[trigger] after.holds(k) && !before.holds(k)
}

proof fn lemma_combo_conditions(a: AggregatorView, next: AggregatorView)
    requires
        a.inv(),
        next.inv(),
    ensures
        next.all_pressed.len() > 1 <==> two_down(next),
        minus(next.all_pressed, a.all_pressed).len() > 0 <==> one_more_down(a, next),
{
    let q = next.all_pressed;
    let new = minus(q, a.all_pressed);
    lemma_minus(q, a.all_pressed);
    if q.len() > 1 {
        assert(q.contains(q[0]) && q.contains(q[1]));
        assert(q[0] < q[1]);
        assert(next.holds(q[0]) && next.holds(q[1]));
    }
    if two_down(next) {
        let (j, k) = choose|j: usize, k: usize|
            j != k && #[trigger] next.holds(j) && #[trigger] next.holds(k);
        assert(q.contains(j) && q.contains(k));
        let x = q.index_of(j);
        let y = q.index_of(k);
        assert(x != y);
    }
    if new.len() > 0 {
        assert(new.contains(new[0]));
        assert(q.contains(new[0]) && !a.all_pressed.contains(new[0]));
        assert(next.holds(new[0]) && !a.holds(new[0]));
    }
    if one_more_down(a, next) {
        let k = choose|k: usize| #[trigger] next.holds(k) && !a.holds(k);
        assert(q.contains(k) && !a.all_pressed.contains(k));
        assert(new.contains(k));
    }
}

/// A combination is reported exactly when a report leaves two keys or more down of which at least
/// one was not down before, however the others came to be down. It is reported once, as the last
/// event, and it lists all keys that are down, ascending, with their names and the last mask of
/// the config channel.
pub proof fn law_a_combination_is_reported_when_a_key_joins_others(
    a: AggregatorView,
    source: KeySource,
    keys: Seq<MetaView>,
    mask: Option<u8>,
)
    requires
        a.inv(),
    ensures
        ({
            let next = after_report(a, source, keys, mask);
            let events = report_events(a, source, keys, mask);
            &&& two_down(next) && one_more_down(a, next) ==> events.len() > 0 && (
            events.last() matches EventView::ComboKey { keys: listed, key_names, config_mask }
                && listed == next.all_pressed && key_names.len() == listed.len() && (forall|i: int|
                0 <= i < listed.len() ==> #[trigger] key_names[i] == protocol_hid::key_name(
                    listed[i],
                )) && config_mask == next.last_config_mask)
            &&& forall|i: int|
                0 <= i < events.len() && (#[trigger] events[i]) is ComboKey ==> i == events.len() - 1
                    && two_down(next) && one_more_down(a, next)
        }),
{
    let next = after_report(a, source, keys, mask);
    lemma_after_report_inv(a, source, keys, mask);
    lemma_combo_conditions(a, next);
    let events = report_events(a, source, keys, mask);
    let released = release_events(a.all_pressed, next.all_pressed, source);
    let pressed = press_events(a.all_pressed, next.all_pressed, keys);
    let combo = combo_events(a.all_pressed, next.all_pressed, next.last_config_mask);
    assert(events =~= released + pressed + combo);
    assert forall|i: int| 0 <= i < events.len() && (#[trigger] events[i]) is ComboKey implies i
        == events.len() - 1 && combo.len() == 1 by {
        if i < released.len() {
            assert(events[i] == released[i]);
        } else if i < released.len() + pressed.len() {
            assert(events[i] == pressed[i - released.len()]);
        }
    }
    if combo.len() == 1 {
        assert(events.last() == combo[0]);
    }
}

/// The entry that a report makes for the key `k` last.
pub open spec fn is_last_entry(keys: Seq<MetaView>, i: int, k: usize) -> bool {
    &&& 0 <= i < keys.len()
    &&& keys[i].key_index == k
    &&& forall|j: int| i < j < keys.len() ==> (#[trigger] keys[j]).key_index != k
}

proof fn lemma_last_entry_is(keys: Seq<MetaView>, k: usize) -> (i: int)
    requires
        names_key(keys, k),
    ensures
        is_last_entry(keys, i, k),
        last_entry(keys, k) == Some(keys[i]),
    decreases keys.len(),
{
    let h = choose|h: int| 0 <= h < keys.len() && (#[trigger] keys[h]).key_index == k;
    if keys.last().key_index == k {
        keys.len() - 1
    } else {
        let p = keys.drop_last();
        assert(p[h].key_index == k);
        let i = lemma_last_entry_is(p, k);
        assert forall|j: int| i < j < keys.len() implies (#[trigger] keys[j]).key_index != k by {
            if j < p.len() {
                assert(p[j].key_index != k);
            }
        }
        i
    }
}

/// A press is reported for exactly the keys that came to be down, with the name, value and source
/// that the report gives for the key last.
pub proof fn law_a_press_is_reported_iff_the_key_went_down(
    a: AggregatorView,
    source: KeySource,
    keys: Seq<MetaView>,
    mask: Option<u8>,
    k: usize,
)
    requires
        a.inv(),
    ensures
        ({
            let next = after_report(a, source, keys, mask);
            let events = report_events(a, source, keys, mask);
            &&& !a.holds(k) && next.holds(k) ==> exists|n: int, i: int|
                #![trigger events[n], keys[i]]
                0 <= n < events.len() && is_last_entry(keys, i, k) && events[n]
                    == EventView::KeyPress(
                    KeyPressView {
                        key_index: k,
                        key_name: keys[i].key_name,
                        key_value: keys[i].key_value,
                        pressed: true,
                        source: keys[i].source,
                    },
                )
            &&& forall|n: int|
                0 <= n < events.len() && (#[trigger] events[n] matches EventView::KeyPress(p)
                    && p.pressed && p.key_index == k) ==> !a.holds(k) && next.holds(k)
        }),
{
    let next = after_report(a, source, keys, mask);
    let before = a.all_pressed;
    let after = next.all_pressed;
    lemma_after_report_inv(a, source, keys, mask);
    lemma_minus(after, before);
    let events = report_events(a, source, keys, mask);
    let released = release_events(before, after, source);
    let pressed = press_events(before, after, keys);
    let combo = combo_events(before, after, next.last_config_mask);
    let new = minus(after, before);
    assert(events =~= released + pressed + combo);
    assert(before.contains(k) <==> a.holds(k));
    assert(after.contains(k) <==> next.holds(k));
    if !a.holds(k) && next.holds(k) {
        assert(new.contains(k));
        assert(names_key(keys, k));
        let h = new.index_of(k);
        let i = lemma_last_entry_is(keys, k);
        let n = released.len() + h;
        assert(events[n] == pressed[h]);
        assert(pressed[h] == press_of(keys[i]));
        assert(keys[i].key_index == k);
    }
    assert forall|n: int|
        0 <= n < events.len() && (#[trigger] events[n] matches EventView::KeyPress(p) && p.pressed
            && p.key_index == k) implies !a.holds(k) && next.holds(k) by {
        if n < released.len() {
            assert(events[n] == released[n]);
        } else if n < released.len() + pressed.len() {
            let h = n - released.len();
            assert(events[n] == pressed[h]);
            assert(new.contains(new[h]));
            assert(after.contains(new[h]));
            assert(next.holds(new[h]));
            assert(!before.contains(new[h]));
            assert(!a.holds(new[h]));
            assert(names_key(keys, new[h]));
            lemma_last_entry_exists(keys, new[h]);
        } else {
            assert(events[n] == combo[n - released.len() - pressed.len()]);
        }
    }
}

/// A release is reported for exactly the keys that no channel holds any longer, with the value 0
/// and the channel whose report let go of them.
pub proof fn law_a_release_tells_the_key_and_the_channel(
    a: AggregatorView,
    source: KeySource,
    keys: Seq<MetaView>,
    mask: Option<u8>,
    k: usize,
)
    requires
        a.inv(),
    ensures
        ({
            let next = after_report(a, source, keys, mask);
            let events = report_events(a, source, keys, mask);
            let release = EventView::KeyPress(
                KeyPressView {
                    key_index: k,
                    key_name: protocol_hid::key_name(k),
                    key_value: 0,
                    pressed: false,
                    source,
                },
            );
            &&& a.holds(k) && !next.holds(k) ==> events.contains(release)
            &&& forall|n: int|
                0 <= n < events.len() && (#[trigger] events[n] matches EventView::KeyPress(p)
                    && !p.pressed && p.key_index == k) ==> a.holds(k) && !next.holds(k)
                    && events[n] == release
        }),
{
    let next = after_report(a, source, keys, mask);
    let before = a.all_pressed;
    let after = next.all_pressed;
    lemma_after_report_inv(a, source, keys, mask);
    lemma_minus(before, after);
    let events = report_events(a, source, keys, mask);
    let released = release_events(before, after, source);
    let pressed = press_events(before, after, keys);
    let combo = combo_events(before, after, next.last_config_mask);
    let gone = minus(before, after);
    assert(events =~= released + pressed + combo);
    assert(before.contains(k) <==> a.holds(k));
    assert(after.contains(k) <==> next.holds(k));
    if a.holds(k) && !next.holds(k) {
        assert(gone.contains(k));
        let h = gone.index_of(k);
        assert(events[h] == released[h]);
    }
    assert forall|n: int|
        0 <= n < events.len() && (#[trigger] events[n] matches EventView::KeyPress(p) && !p.pressed
            && p.key_index == k) implies a.holds(k) && !next.holds(k) && events[n] == release_of(
        k,
        source,
    ) by {
        if n < released.len() {
            assert(events[n] == released[n]);
            assert(gone.contains(gone[n]));
        } else if n < released.len() + pressed.len() {
            assert(events[n] == pressed[n - released.len()]);
        } else {
            assert(events[n] == combo[n - released.len() - pressed.len()]);
        }
    }
}

/// Releases come before presses, and each of the two kinds in ascending order of the keys, so no
/// key is reported twice.
pub proof fn law_key_events_come_in_order(
    a: AggregatorView,
    source: KeySource,
    keys: Seq<MetaView>,
    mask: Option<u8>,
    m: int,
    n: int,
)
    requires
        a.inv(),
        0 <= m < n < report_events(a, source, keys, mask).len(),
    ensures
        ({
            let events = report_events(a, source, keys, mask);
            events[m] matches EventView::KeyPress(p) && (events[n] matches EventView::KeyPress(q)
                ==> (p.pressed ==> q.pressed) && (p.pressed == q.pressed ==> p.key_index
                < q.key_index))
        }),
{
    let next = after_report(a, source, keys, mask);
    let before = a.all_pressed;
    let after = next.all_pressed;
    lemma_after_report_inv(a, source, keys, mask);
    lemma_minus(before, after);
    lemma_minus(after, before);
    let events = report_events(a, source, keys, mask);
    let released = release_events(before, after, source);
    let pressed = press_events(before, after, keys);
    let combo = combo_events(before, after, next.last_config_mask);
    let gone = minus(before, after);
    let new = minus(after, before);
    assert(events =~= released + pressed + combo);
    assert(m < released.len() + pressed.len());
    if m < released.len() {
        assert(events[m] == released[m]);
    } else {
        let h = m - released.len();
        assert(events[m] == pressed[h]);
    }
    if n < released.len() {
        assert(events[n] == released[n]);
        assert(gone[m] < gone[n]);
    } else if n < released.len() + pressed.len() {
        let g = n - released.len();
        assert(events[n] == pressed[g]);
        assert(new.contains(new[g]));
        assert(after.contains(new[g]));
        assert(next.holds(new[g]));
        assert(!before.contains(new[g]));
        assert(!a.holds(new[g]));
        assert(names_key(keys, new[g]));
        lemma_last_entry_exists(keys, new[g]);
        if m >= released.len() {
            let h = m - released.len();
            assert(new.contains(new[h]));
            assert(after.contains(new[h]));
            assert(next.holds(new[h]));
            assert(!before.contains(new[h]));
            assert(!a.holds(new[h]));
            assert(names_key(keys, new[h]));
            lemma_last_entry_exists(keys, new[h]);
            assert(new[h] < new[g]);
        }
    } else {
        assert(events[n] == combo[n - released.len() - pressed.len()]);
    }
}

/// Several key sets of one channel cause the events of each in turn, as if they had been reported
/// one by one.
pub proof fn law_batches_are_reports_in_turn(
    a: AggregatorView,
    source: KeySource,
    batches: Seq<Seq<MetaView>>,
    last: Seq<MetaView>,
)
    ensures
        after_batches(a, source, Seq::empty(), 0) == (a, Seq::<EventView>::empty()),
        ({
            let prior = after_batches(a, source, batches, batches.len() as int);
            after_batches(a, source, batches.push(last), batches.len() as int + 1) == (
                after_report(prior.0, source, last, None),
                prior.1 + report_events(prior.0, source, last, None),
            )
        }),
{
    lemma_batches_prefix(a, source, batches, last, batches.len() as int);
}

proof fn lemma_batches_prefix(
    a: AggregatorView,
    source: KeySource,
    batches: Seq<Seq<MetaView>>,
    last: Seq<MetaView>,
    n: int,
)
    requires
        n <= batches.len(),
    ensures
        after_batches(a, source, batches.push(last), n) == after_batches(a, source, batches, n),
    decreases n,
{
    if n > 0 {
        lemma_batches_prefix(a, source, batches, last, n - 1);
    }
}

/// A list of keys is seen key by key, in its order, and so are several lists.
pub proof fn law_keys_are_seen_one_by_one(
    list: Seq<PressedKeyMeta>,
    i: int,
    batches: Seq<Vec<PressedKeyMeta>>,
    j: int,
)
    requires
        0 <= i < list.len(),
        0 <= j < batches.len(),
    ensures
        meta_views(list).len() == list.len(),
        meta_views(list)[i] == list[i]@,
        batch_views(batches).len() == batches.len(),
        batch_views(batches)[j] == meta_views(batches[j]@),
{
}

/// An aggregator that has seen no report holds no keys.
pub proof fn law_a_new_aggregator_holds_nothing()
    ensures
        ({
            let a = empty_aggregator();
            &&& a.config.len() == 0 && a.consumer.len() == 0 && a.gatt.len() == 0
            &&& a.all_pressed.len() == 0
            &&& a.last_config_mask is None
        }),
{
}

} // verus!
