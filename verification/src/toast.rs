use vstd::prelude::*;

verus! {

/// The kinds of notification.
#[derive(Debug, Clone, Copy, PartialEq, Eq)]
pub enum ToastType {
    Success,
    Error,
    Info,
    Warning,
}

/// One notification on screen.
#[derive(Debug, Clone)]
pub struct Toast {
    /// Identifies the notification for its dismissal.
    pub id: u32,
    /// The text shown.
    pub message: String,
    /// Its kind, which decides its look.
    pub toast_type: ToastType,
}

/// The notifications on screen and the id the next one gets.
#[derive(Debug)]
pub struct ToastStore {
    /// The id of the next notification; ids wrap round.
    pub next_id: u32,
    /// The notifications, oldest first.
    pub toasts: Vec<Toast>,
}

/// The id after `id`, wrapping round.
pub open spec fn next_toast_id(id: u32) -> u32 {
    if id == u32::MAX {
        0
    } else {
        (id + 1) as u32
    }
}

/// The notifications of `toasts` whose id is not `id`, in order.
pub open spec fn without_id(toasts: Seq<Toast>, id: u32) -> Seq<Toast> {
    toasts.filter(|t: Toast| t.id != id)
}

impl Toast {
    /// A copy of the notification.
    pub fn duplicate(&self) -> (r: Toast)
        ensures
            r == *self,
    {
        Toast { id: self.id, message: self.message.clone(), toast_type: self.toast_type }
    }
}

/// The ids of `toasts` rise strictly from first to last.
pub open spec fn ids_ascending(toasts: Seq<Toast>) -> bool {
    forall|i: int, j: int| 0 <= i < j < toasts.len() ==> toasts[i].id < toasts[j].id
}

/// Every id of `toasts` is below `bound`.
pub open spec fn ids_below(toasts: Seq<Toast>, bound: u32) -> bool {
    forall|i: int| 0 <= i < toasts.len() ==> toasts[i].id < bound
}

impl ToastStore {
    /// The store is consistent: the notifications on screen carry rising
    /// ids, all below the id the next one gets, so no two share an id.
    pub open spec fn wf(self) -> bool {
        ids_ascending(self.toasts@) && ids_below(self.toasts@, self.next_id)
    }

    /// No notification, ids starting at 0.
    pub fn new() -> (s: Self)
        ensures
            s.next_id == 0,
            s.toasts@.len() == 0,
            s.wf(),
    {
        ToastStore { next_id: 0, toasts: Vec::new() }
    }

    /// Removes the notifications with id `id`, keeping the others in order.
    pub fn dismiss(&mut self, id: u32)
        ensures
            final(self).toasts@ == without_id(old(self).toasts@, id),
            final(self).next_id == old(self).next_id,
            old(self).wf() ==> final(self).wf(),
    {
        proof {
            lemma_without_id_keeps_order(self.toasts@, id);
        }
        let ghost pred = |t: Toast| t.id != id;
        let ghost shown = self.toasts@;
        let mut kept: Vec<Toast> = Vec::new();
        let mut rest: Vec<Toast> = Vec::new();
        std::mem::swap(&mut rest, &mut self.toasts);
        let mut i: usize = 0;
        let n = rest.len();
        assert(shown.take(0).filter(pred) =~= Seq::<Toast>::empty()) by {
            reveal_with_fuel(Seq::<Toast>::filter, 1);
        }
        assert(kept@ =~= shown.take(0).filter(pred));
        while i < n
            invariant
                n == rest@.len(),
                rest@ == shown,
                pred == (|t: Toast| t.id != id),
                i <= n,
                kept@ == shown.take(i as int).filter(pred),
                self.next_id == old(self).next_id,
            decreases n - i,
        {
            assert(shown.take(i + 1).drop_last() =~= shown.take(i as int));
            assert(shown.take(i + 1).last() == shown[i as int]);
            assert(shown.take(i + 1).filter(pred) == if pred(shown[i as int]) {
                shown.take(i as int).filter(pred).push(shown[i as int])
            } else {
                shown.take(i as int).filter(pred)
            }) by {
                reveal_with_fuel(Seq::<Toast>::filter, 1);
            }
            assert(pred(shown[i as int]) == (rest@[i as int].id != id));
            let ghost before = kept@;
            if rest[i].id != id {
                let t = rest[i].duplicate();
                kept.push(t);
                assert(kept@ =~= before.push(shown[i as int]));
            }
            i = i + 1;
        }
        assert(shown.take(n as int) =~= shown);
        self.toasts = kept;
    }
}

/// Shows a notification: it gets the store's next id and goes last.
pub fn show_toast(store: &mut ToastStore, message: String, toast_type: ToastType) -> (id: u32)
    ensures
        id == old(store).next_id,
        final(store).next_id == next_toast_id(old(store).next_id),
        final(store).toasts@ == old(store).toasts@.push(Toast { id, message, toast_type }),
        old(store).wf() && old(store).next_id < u32::MAX ==> final(store).wf(),
{
    let id = store.next_id;
    store.next_id = if id == u32::MAX { 0 } else { id + 1 };
    store.toasts.push(Toast { id, message, toast_type });
    id
}

/// Shows a success notification.
pub fn toast_success(store: &mut ToastStore, message: String) -> (id: u32)
    ensures
        id == old(store).next_id,
        final(store).next_id == next_toast_id(old(store).next_id),
        final(store).toasts@ == old(store).toasts@.push(Toast { id, message, toast_type: ToastType::Success }),
{
    show_toast(store, message, ToastType::Success)
}

/// Shows an error notification.
pub fn toast_error(store: &mut ToastStore, message: String) -> (id: u32)
    ensures
        id == old(store).next_id,
        final(store).next_id == next_toast_id(old(store).next_id),
        final(store).toasts@ == old(store).toasts@.push(Toast { id, message, toast_type: ToastType::Error }),
{
    show_toast(store, message, ToastType::Error)
}

/// Shows an information notification.
pub fn toast_info(store: &mut ToastStore, message: String) -> (id: u32)
    ensures
        id == old(store).next_id,
        final(store).next_id == next_toast_id(old(store).next_id),
        final(store).toasts@ == old(store).toasts@.push(Toast { id, message, toast_type: ToastType::Info }),
{
    show_toast(store, message, ToastType::Info)
}

/// Shows a warning notification.
pub fn toast_warning(store: &mut ToastStore, message: String) -> (id: u32)
    ensures
        id == old(store).next_id,
        final(store).next_id == next_toast_id(old(store).next_id),
        final(store).toasts@ == old(store).toasts@.push(Toast { id, message, toast_type: ToastType::Warning }),
{
    show_toast(store, message, ToastType::Warning)
}

/// The style class of a notification of kind `t`.
pub open spec fn toast_class_spec(t: ToastType) -> Seq<char> {
    match t {
        ToastType::Success => "toast toast--success"@,
        ToastType::Error => "toast toast--error"@,
        ToastType::Info => "toast toast--info"@,
        ToastType::Warning => "toast toast--warning"@,
    }
}

/// The style class of a notification of kind `t`.
pub fn toast_class(t: ToastType) -> (r: &'static str)
    ensures
        r@ == toast_class_spec(t),
{
    match t {
        ToastType::Success => "toast toast--success",
        ToastType::Error => "toast toast--error",
        ToastType::Info => "toast toast--info",
        ToastType::Warning => "toast toast--warning",
    }
}

/// Dismissing keeps exactly the notifications of other ids: none with id
/// `id` is left, and every other one of `toasts` stays.
pub proof fn lemma_dismiss_removes_only_that_id(toasts: Seq<Toast>, id: u32)
    ensures
        forall|i: int| 0 <= i < without_id(toasts, id).len() ==> without_id(toasts, id)[i].id != id,
        forall|i: int| 0 <= i < toasts.len() && toasts[i].id != id ==> without_id(toasts, id).contains(toasts[i]),
        without_id(toasts, id).len() <= toasts.len(),
{
    let pred = |t: Toast| t.id != id;
    assert forall|i: int| 0 <= i < without_id(toasts, id).len() implies without_id(toasts, id)[i].id != id by {
        toasts.lemma_filter_pred(pred, i);
    }
    assert forall|i: int| 0 <= i < toasts.len() && toasts[i].id != id implies without_id(toasts, id).contains(toasts[i]) by {
        toasts.lemma_filter_contains(pred, i);
    }
    toasts.lemma_filter_len(pred);
}

/// Filtering keeps a sequence whose elements all pass.
proof fn lemma_filter_all_kept(s: Seq<Toast>, id: u32)
    requires
        forall|i: int| 0 <= i < s.len() ==> s[i].id != id,
    ensures
        without_id(s, id) == s,
    decreases s.len(),
{
    reveal_with_fuel(Seq::<Toast>::filter, 1);
    if s.len() > 0 {
        lemma_filter_all_kept(s.drop_last(), id);
        assert(s.drop_last().push(s.last()) =~= s);
    }
}

/// Dismissing a notification just shown restores the screen, when no other
/// notification carried its id.
pub proof fn lemma_dismiss_undoes_show(toasts: Seq<Toast>, t: Toast)
    requires
        forall|i: int| 0 <= i < toasts.len() ==> toasts[i].id != t.id,
    ensures
        without_id(toasts.push(t), t.id) == toasts,
{
    reveal_with_fuel(Seq::<Toast>::filter, 1);
    assert(toasts.push(t).drop_last() =~= toasts);
    lemma_filter_all_kept(toasts, t.id);
}

/// Dismissal keeps a subsequence: each notification left was on screen,
/// and rising ids stay rising.
pub proof fn lemma_without_id_keeps_order(toasts: Seq<Toast>, id: u32)
    ensures
        forall|k: int| 0 <= k < without_id(toasts, id).len() ==> exists|j: int| 0 <= j < toasts.len()
            && #[trigger] without_id(toasts, id)[k] == toasts[j],
        ids_ascending(toasts) ==> ids_ascending(without_id(toasts, id)),
        forall|b: u32| ids_below(toasts, b) ==> ids_below(without_id(toasts, id), b),
    decreases toasts.len(),
{
    reveal_with_fuel(Seq::<Toast>::filter, 1);
    if toasts.len() > 0 {
        let front = toasts.drop_last();
        lemma_without_id_keeps_order(front, id);
        let w = without_id(toasts, id);
        let wf = without_id(front, id);
        assert forall|k: int| 0 <= k < w.len() implies exists|j: int| 0 <= j < toasts.len()
            && #[trigger] w[k] == toasts[j] by {
            if k < wf.len() {
                let j = choose|j: int| 0 <= j < front.len() && wf[k] == front[j];
                assert(w[k] == toasts[j]);
            } else {
                assert(w[k] == toasts[toasts.len() - 1]);
            }
        }
        if ids_ascending(toasts) {
            assert(ids_ascending(front));
            assert forall|i: int, j: int| 0 <= i < j < w.len() implies w[i].id < w[j].id by {
                if j < wf.len() {
                } else {
                    let jj = choose|jj: int| 0 <= jj < front.len() && wf[i] == front[jj];
                    assert(w[i] == toasts[jj]);
                    assert(w[j] == toasts[toasts.len() - 1]);
                }
            }
        }
        assert forall|b: u32| ids_below(toasts, b) implies ids_below(w, b) by {
            assert forall|k: int| 0 <= k < w.len() implies w[k].id < b by {
                let j = choose|j: int| 0 <= j < toasts.len() && w[k] == toasts[j];
            }
        }
    }
}

/// In a consistent store no two notifications share an id.
pub proof fn lemma_wf_ids_distinct(store: ToastStore)
    requires
        store.wf(),
    ensures
        forall|i: int, j: int| 0 <= i < store.toasts@.len() && 0 <= j < store.toasts@.len() && i != j
            ==> store.toasts@[i].id != store.toasts@[j].id,
{
    assert forall|i: int, j: int| 0 <= i < store.toasts@.len() && 0 <= j < store.toasts@.len() && i != j
        implies store.toasts@[i].id != store.toasts@[j].id by {
        if i < j {
            assert(store.toasts@[i].id < store.toasts@[j].id);
        } else {
            assert(store.toasts@[j].id < store.toasts@[i].id);
        }
    }
}

/// In a consistent store, dismissing the notification just shown restores
/// the screen as it was.
pub proof fn lemma_show_then_dismiss_restores(store: ToastStore, message: String, toast_type: ToastType)
    requires
        store.wf(),
    ensures
        without_id(
            store.toasts@.push(Toast { id: store.next_id, message, toast_type }),
            store.next_id,
        ) == store.toasts@,
{
    lemma_dismiss_undoes_show(store.toasts@, Toast { id: store.next_id, message, toast_type });
}

} // verus!
