//! The submission sequence of an entry order, as a state machine: the
//! caller performs each venue call the machine asks for and reports what
//! came back.
//!
//! Before an order is placed the machine refuses a signal already handled,
//! refuses while a position is open (when new entries are blocked), cancels
//! every resting entry and trigger order the agent owns and confirms each
//! cancel, looks at the positions again, re-checks the signal's age, and
//! marks the signal as seen. Only then does it ask for the order.
use vstd::prelude::*;
use crate::execution::duplicate_reason;
use crate::text::{concat2, owned};

verus! {

broadcast use vstd::string::group_string_axioms;

/// A resting order as the venue listed it.
#[derive(Debug)]
pub struct OrderRef {
    /// Its order id (`ordId` or `algoId`), when present.
    pub id: Option<String>,
    /// Whether the agent placed it.
    pub owned: bool,
}

/// The abstract content of an [`OrderRef`].
pub struct OrderRefView {
    pub id: Option<Seq<char>>,
    pub owned: bool,
}

impl View for OrderRef {
    type V = OrderRefView;

    open spec fn view(&self) -> OrderRefView {
        OrderRefView {
            id: match self.id {
                Some(s) => Some(s@),
                None => None,
            },
            owned: self.owned,
        }
    }
}

/// The views of a list of orders.
pub open spec fn order_views(q: Seq<OrderRef>) -> Seq<OrderRefView> {
    q.map_values(|o: OrderRef| o@)
}

/// Where the sequence stands.
#[derive(Debug, Clone, Copy, PartialEq, Eq, Structural)]
pub enum SubmitPhase {
    Start,
    /// Waiting for the open positions.
    CheckPositions,
    /// Waiting for the leverage to be set.
    SetLeverage,
    /// Waiting for the resting entry orders.
    ListOrders,
    /// Waiting for a cancel of an entry order.
    AwaitCancel,
    /// Waiting for the state of a cancelled entry order.
    AwaitOrderState,
    /// Waiting for the resting trigger orders.
    ListAlgoOrders,
    /// Waiting for a cancel of a trigger order.
    AwaitAlgoCancel,
    /// Waiting for the state of a cancelled trigger order.
    AwaitAlgoState,
    /// Waiting for the positions once more.
    RecheckPositions,
    /// Waiting for the age check.
    RecheckAge,
    /// Waiting for the signal to be marked seen.
    Marking,
    /// Waiting for the order's answer.
    Placing,
    Done,
}

/// The state of one submission.
#[derive(Debug)]
pub struct SubmitState {
    pub phase: SubmitPhase,
    pub inst_id: String,
    /// Whether the instrument is a derivative.
    pub derivative: bool,
    /// Whether new entries are blocked while a position is open.
    pub block_when_open: bool,
    /// The listed orders not yet looked at.
    pub queue: Vec<OrderRef>,
    /// The order whose cancel is being confirmed.
    pub current: String,
    /// Every owned resting order was cancelled and the cancel confirmed.
    pub cancels_confirmed: bool,
    /// The signal's age was checked again after the cancels.
    pub age_rechecked: bool,
    /// The signal was marked seen.
    pub seen_marked: bool,
}

/// The abstract content of a [`SubmitState`].
pub struct SubmitStateView {
    pub phase: SubmitPhase,
    pub inst_id: Seq<char>,
    pub derivative: bool,
    pub block_when_open: bool,
    pub queue: Seq<OrderRefView>,
    pub current: Seq<char>,
    pub cancels_confirmed: bool,
    pub age_rechecked: bool,
    pub seen_marked: bool,
}

impl View for SubmitState {
    type V = SubmitStateView;

    open spec fn view(&self) -> SubmitStateView {
        SubmitStateView {
            phase: self.phase,
            inst_id: self.inst_id@,
            derivative: self.derivative,
            block_when_open: self.block_when_open,
            queue: order_views(self.queue@),
            current: self.current@,
            cancels_confirmed: self.cancels_confirmed,
            age_rechecked: self.age_rechecked,
            seen_marked: self.seen_marked,
        }
    }
}

impl SubmitState {
    /// A submission that has not begun.
    pub fn new() -> (r: Self)
        ensures
            r@.phase == SubmitPhase::Start,
            r@.inst_id.len() == 0 && r@.queue.len() == 0 && r@.current.len() == 0,
            !r@.derivative && !r@.block_when_open,
            !r@.cancels_confirmed && !r@.age_rechecked && !r@.seen_marked,
    {
        SubmitState {
            phase: SubmitPhase::Start,
            inst_id: String::new(),
            derivative: false,
            block_when_open: false,
            queue: Vec::new(),
            current: String::new(),
            cancels_confirmed: false,
            age_rechecked: false,
            seen_marked: false,
        }
    }
}

/// What the venue or the caller reported.
#[derive(Debug)]
pub enum VenueEvent {
    /// A checked decision is to be submitted.
    Begin { inst_id: String, derivative: bool, block_when_open: bool, already_seen: bool },
    /// The open positions: for each, whether its size is non-zero, or
    /// `None` when the size could not be read.
    Positions(Vec<Option<bool>>),
    LeverageSet,
    /// The resting entry orders.
    PendingOrders(Vec<OrderRef>),
    /// A cancel was accepted.
    Cancelled,
    /// The state of a cancelled entry order.
    OrderState { canceled: bool, nothing_filled: bool },
    /// The resting trigger orders.
    AlgoOrders(Vec<OrderRef>),
    /// The state of a cancelled trigger order.
    AlgoState { canceled: bool },
    /// Whether the signal is still within its allowed age.
    Age { fresh: bool },
    /// The signal is marked seen.
    Marked,
    /// The venue accepted the order.
    Placed,
    /// A venue call failed.
    Failed(String),
}

/// What the caller does next.
#[derive(Debug)]
pub enum VenueAction {
    GetPositions,
    SetLeverage,
    ListPendingOrders,
    CancelOrder(String),
    GetOrder(String),
    ListPendingAlgoOrders,
    CancelAlgoOrder(String),
    GetAlgoOrder(String),
    CheckAge,
    MarkSeen,
    PlaceOrder,
    /// Nothing is placed, for this reason.
    Refuse(String),
    /// The order was placed.
    Submitted,
    /// The placing call failed: the order may or may not stand.
    Unconfirmed(String),
    /// The event does not belong to this phase; nothing changes.
    Ignore,
}

/// The abstract content of a [`VenueAction`].
pub enum VenueActionView {
    GetPositions,
    SetLeverage,
    ListPendingOrders,
    CancelOrder(Seq<char>),
    GetOrder(Seq<char>),
    ListPendingAlgoOrders,
    CancelAlgoOrder(Seq<char>),
    GetAlgoOrder(Seq<char>),
    CheckAge,
    MarkSeen,
    PlaceOrder,
    Refuse(Seq<char>),
    Submitted,
    Unconfirmed(Seq<char>),
    Ignore,
}

impl View for VenueAction {
    type V = VenueActionView;

    open spec fn view(&self) -> VenueActionView {
        match self {
            VenueAction::GetPositions => VenueActionView::GetPositions,
            VenueAction::SetLeverage => VenueActionView::SetLeverage,
            VenueAction::ListPendingOrders => VenueActionView::ListPendingOrders,
            VenueAction::CancelOrder(i) => VenueActionView::CancelOrder(i@),
            VenueAction::GetOrder(i) => VenueActionView::GetOrder(i@),
            VenueAction::ListPendingAlgoOrders => VenueActionView::ListPendingAlgoOrders,
            VenueAction::CancelAlgoOrder(i) => VenueActionView::CancelAlgoOrder(i@),
            VenueAction::GetAlgoOrder(i) => VenueActionView::GetAlgoOrder(i@),
            VenueAction::CheckAge => VenueActionView::CheckAge,
            VenueAction::MarkSeen => VenueActionView::MarkSeen,
            VenueAction::PlaceOrder => VenueActionView::PlaceOrder,
            VenueAction::Refuse(m) => VenueActionView::Refuse(m@),
            VenueAction::Submitted => VenueActionView::Submitted,
            VenueAction::Unconfirmed(m) => VenueActionView::Unconfirmed(m@),
            VenueAction::Ignore => VenueActionView::Ignore,
        }
    }
}

/// The refusal for a position whose size cannot be read.
pub open spec fn invalid_size() -> Seq<char> {
    "持仓数量无效，拒绝新开仓"@
}

/// The refusal for an open position while new entries are blocked.
pub open spec fn position_open(inst_id: Seq<char>) -> Seq<char> {
    inst_id + " 已存在活跃持仓，系统已启用持仓互斥保护（禁止同向加仓）"@
}

/// Why the positions refuse a new entry, looking at them in order: an
/// unreadable size, or (when entries are blocked) a non-zero one.
pub open spec fn positions_refusal(sizes: Seq<Option<bool>>, block: bool, inst_id: Seq<char>) -> Option<Seq<char>>
    decreases sizes.len(),
{
    if sizes.len() == 0 {
        None
    } else if sizes[0] is None {
        Some(invalid_size())
    } else if block && sizes[0] == Some(true) {
        Some(position_open(inst_id))
    } else {
        positions_refusal(sizes.drop_first(), block, inst_id)
    }
}

/// Whether every position is readable and flat.
pub open spec fn all_flat(sizes: Seq<Option<bool>>) -> bool {
    forall|i: int| 0 <= i < sizes.len() ==> sizes[i] == Some(false)
}

/// The position of the first owned order, or -1.
pub open spec fn first_owned(q: Seq<OrderRefView>) -> int
    decreases q.len(),
{
    if q.len() == 0 {
        -1
    } else if q[0].owned {
        0
    } else {
        let r = first_owned(q.drop_first());
        if r < 0 {
            -1
        } else {
            r + 1
        }
    }
}

/// `s` moved to `phase`.
pub open spec fn at(s: SubmitStateView, phase: SubmitPhase) -> SubmitStateView {
    SubmitStateView { phase, ..s }
}

/// `s` finished with a refusal.
pub open spec fn refused(s: SubmitStateView, reason: Seq<char>) -> (SubmitStateView, VenueActionView) {
    (at(s, SubmitPhase::Done), VenueActionView::Refuse(reason))
}

/// The step once every owned order is cancelled: look at the positions
/// again when entries are blocked on a derivative, else re-check the age.
pub open spec fn after_cancels(s: SubmitStateView) -> (SubmitStateView, VenueActionView) {
    let c = SubmitStateView { cancels_confirmed: true, queue: Seq::empty(), ..s };
    if s.derivative && s.block_when_open {
        (at(c, SubmitPhase::RecheckPositions), VenueActionView::GetPositions)
    } else {
        (at(c, SubmitPhase::RecheckAge), VenueActionView::CheckAge)
    }
}

/// The step that takes the next owned order from `q`: cancel it, refuse
/// when it has no id, or move on when none is left.
pub open spec fn take_next(s: SubmitStateView, q: Seq<OrderRefView>, algo: bool) -> (SubmitStateView, VenueActionView) {
    let i = first_owned(q);
    if i < 0 {
        if algo {
            after_cancels(s)
        } else {
            (at(SubmitStateView { queue: Seq::empty(), ..s }, SubmitPhase::ListAlgoOrders), VenueActionView::ListPendingAlgoOrders)
        }
    } else {
        match q[i].id {
            None => refused(s, if algo {
                "旧策略单缺少 ID"@
            } else {
                "旧挂单缺少订单 ID"@
            }),
            Some(id) => {
                let next = SubmitStateView { queue: q.skip(i + 1), current: id, ..s };
                if algo {
                    (at(next, SubmitPhase::AwaitAlgoCancel), VenueActionView::CancelAlgoOrder(id))
                } else {
                    (at(next, SubmitPhase::AwaitCancel), VenueActionView::CancelOrder(id))
                }
            },
        }
    }
}

/// One step of the submission sequence.
pub open spec fn spec_submission_step(s: SubmitStateView, e: VenueEvent) -> (SubmitStateView, VenueActionView) {
    match (s.phase, e) {
        (SubmitPhase::Start, VenueEvent::Begin { inst_id, derivative, block_when_open, already_seen }) => {
            let b = SubmitStateView { inst_id: inst_id@, derivative, block_when_open, ..s };
            if already_seen {
                refused(b, duplicate_reason())
            } else if derivative {
                (at(b, SubmitPhase::CheckPositions), VenueActionView::GetPositions)
            } else {
                (at(b, SubmitPhase::ListOrders), VenueActionView::ListPendingOrders)
            }
        },
        (SubmitPhase::CheckPositions, VenueEvent::Positions(sizes)) => {
            match positions_refusal(sizes@, s.block_when_open, s.inst_id) {
                Some(m) => refused(s, m),
                None => (at(s, SubmitPhase::SetLeverage), VenueActionView::SetLeverage),
            }
        },
        (SubmitPhase::SetLeverage, VenueEvent::LeverageSet) => (at(s, SubmitPhase::ListOrders), VenueActionView::ListPendingOrders),
        (SubmitPhase::ListOrders, VenueEvent::PendingOrders(rows)) => take_next(s, order_views(rows@), false),
        (SubmitPhase::AwaitCancel, VenueEvent::Cancelled) => (at(s, SubmitPhase::AwaitOrderState), VenueActionView::GetOrder(s.current)),
        (SubmitPhase::AwaitOrderState, VenueEvent::OrderState { canceled, nothing_filled }) => {
            if canceled && nothing_filled {
                take_next(s, s.queue, false)
            } else {
                refused(s, "旧挂单已成交、部分成交或撤单尚未确认，暂停替换"@)
            }
        },
        (SubmitPhase::ListAlgoOrders, VenueEvent::AlgoOrders(rows)) => take_next(s, order_views(rows@), true),
        (SubmitPhase::AwaitAlgoCancel, VenueEvent::Cancelled) => (at(s, SubmitPhase::AwaitAlgoState), VenueActionView::GetAlgoOrder(s.current)),
        (SubmitPhase::AwaitAlgoState, VenueEvent::AlgoState { canceled }) => {
            if canceled {
                take_next(s, s.queue, true)
            } else {
                refused(s, "旧策略单撤销尚未确认，暂停替换"@)
            }
        },
        (SubmitPhase::RecheckPositions, VenueEvent::Positions(sizes)) => {
            if all_flat(sizes@) {
                (at(s, SubmitPhase::RecheckAge), VenueActionView::CheckAge)
            } else {
                refused(s, "提交前发现持仓变化或持仓数据无效，停止开仓"@)
            }
        },
        (SubmitPhase::RecheckAge, VenueEvent::Age { fresh }) => {
            if fresh {
                (at(SubmitStateView { age_rechecked: true, ..s }, SubmitPhase::Marking), VenueActionView::MarkSeen)
            } else {
                refused(s, "信号已过期，提交前停止执行"@)
            }
        },
        (SubmitPhase::Marking, VenueEvent::Marked) => (
            at(SubmitStateView { seen_marked: true, ..s }, SubmitPhase::Placing),
            VenueActionView::PlaceOrder,
        ),
        (SubmitPhase::Placing, VenueEvent::Placed) => (at(s, SubmitPhase::Done), VenueActionView::Submitted),
        (SubmitPhase::Placing, VenueEvent::Failed(m)) => (at(s, SubmitPhase::Done), VenueActionView::Unconfirmed(m@)),
        (SubmitPhase::Start, _) => (s, VenueActionView::Ignore),
        (SubmitPhase::Done, _) => (s, VenueActionView::Ignore),
        (_, VenueEvent::Failed(m)) => refused(s, m@),
        _ => (s, VenueActionView::Ignore),
    }
}

fn copy_state(s: &SubmitState, phase: SubmitPhase) -> (r: SubmitState)
    ensures
        r@ == at(s@, phase),
{
    proof {
        assert(order_views(s.queue@).skip(0) =~= order_views(s.queue@));
    }
    SubmitState {
        phase,
        inst_id: s.inst_id.clone(),
        derivative: s.derivative,
        block_when_open: s.block_when_open,
        queue: copy_orders(&s.queue, 0),
        current: s.current.clone(),
        cancels_confirmed: s.cancels_confirmed,
        age_rechecked: s.age_rechecked,
        seen_marked: s.seen_marked,
    }
}

/// A copy of `q` from position `from` on.
fn copy_orders(q: &Vec<OrderRef>, from: usize) -> (r: Vec<OrderRef>)
    requires
        from <= q.len(),
    ensures
        order_views(r@) == order_views(q@).skip(from as int),
{
    let mut r: Vec<OrderRef> = Vec::new();
    let mut i: usize = from;
    while i < q.len()
        invariant
            from <= i <= q.len(),
            order_views(r@) == order_views(q@).subrange(from as int, i as int),
        decreases q.len() - i,
    {
        let id = match &q[i].id {
            Some(t) => Some(t.clone()),
            None => None,
        };
        let o = OrderRef { id, owned: q[i].owned };
        let ghost before = order_views(r@);
        proof {
            assert(o@ == q@[i as int]@);
            assert(order_views(q@)[i as int] == q@[i as int]@);
        }
        r.push(o);
        proof {
            assert(order_views(r@) =~= before.push(o@));
            assert(order_views(r@) =~= order_views(q@).subrange(from as int, i + 1));
        }
        i += 1;
    }
    proof {
        assert(order_views(q@).subrange(from as int, q.len() as int) =~= order_views(q@).skip(from as int));
    }
    r
}

/// Characterises `first_owned`.
proof fn lemma_first_owned(q: Seq<OrderRefView>)
    ensures
        -1 <= first_owned(q) < q.len(),
        first_owned(q) == -1 ==> forall|j: int| 0 <= j < q.len() ==> !q[j].owned,
        first_owned(q) >= 0 ==> q[first_owned(q)].owned && forall|j: int| 0 <= j < first_owned(q) ==> !q[j].owned,
    decreases q.len(),
{
    if q.len() > 0 {
        lemma_first_owned(q.drop_first());
        assert forall|j: int| 0 < j < q.len() implies q[j] == q.drop_first()[j - 1] by {}
    }
}

/// The position of the first owned order, if any.
fn find_owned(q: &Vec<OrderRef>) -> (r: Option<usize>)
    ensures
        match r {
            Some(i) => i < q.len() && i as int == first_owned(order_views(q@)),
            None => first_owned(order_views(q@)) == -1,
        },
{
    proof {
        lemma_first_owned(order_views(q@));
    }
    let mut i: usize = 0;
    while i < q.len()
        invariant
            0 <= i <= q.len(),
            forall|j: int| 0 <= j < i ==> !order_views(q@)[j].owned,
        decreases q.len() - i,
    {
        proof {
            assert(order_views(q@)[i as int] == q@[i as int]@);
        }
        if q[i].owned {
            proof {
                lemma_first_owned(order_views(q@));
                assert(order_views(q@)[i as int].owned);
                let f = first_owned(order_views(q@));
                assert(!(f >= 0 && f < i));
                assert(f >= 0);
                assert(!(f > i));
            }
            return Some(i);
        }
        i += 1;
    }
    None
}

fn after_cancels_exec(s: &SubmitState) -> (r: (SubmitState, VenueAction))
    ensures
        (r.0@, r.1@) == after_cancels(s@),
{
    let derivative_check = s.derivative && s.block_when_open;
    let c = SubmitState {
        phase: if derivative_check { SubmitPhase::RecheckPositions } else { SubmitPhase::RecheckAge },
        inst_id: s.inst_id.clone(),
        derivative: s.derivative,
        block_when_open: s.block_when_open,
        queue: Vec::new(),
        current: s.current.clone(),
        cancels_confirmed: true,
        age_rechecked: s.age_rechecked,
        seen_marked: s.seen_marked,
    };
    proof {
        assert(order_views(c.queue@) =~= Seq::<OrderRefView>::empty());
    }
    if derivative_check {
        (c, VenueAction::GetPositions)
    } else {
        (c, VenueAction::CheckAge)
    }
}

fn refuse(s: &SubmitState, reason: String) -> (r: (SubmitState, VenueAction))
    ensures
        (r.0@, r.1@) == refused(s@, reason@),
{
    (copy_state(s, SubmitPhase::Done), VenueAction::Refuse(reason))
}

fn take_next_exec(s: &SubmitState, q: &Vec<OrderRef>, algo: bool) -> (r: (SubmitState, VenueAction))
    ensures
        (r.0@, r.1@) == take_next(s@, order_views(q@), algo),
{
    match find_owned(q) {
        None => {
            if algo {
                after_cancels_exec(s)
            } else {
                let mut n = copy_state(s, SubmitPhase::ListAlgoOrders);
                n.queue = Vec::new();
                proof {
                    assert(order_views(n.queue@) =~= Seq::<OrderRefView>::empty());
                }
                (n, VenueAction::ListPendingAlgoOrders)
            }
        },
        Some(i) => {
            proof {
                assert(order_views(q@)[i as int] == q@[i as int]@);
            }
            match &q[i].id {
                None => {
                    if algo {
                        refuse(s, String::from_str("旧策略单缺少 ID"))
                    } else {
                        refuse(s, String::from_str("旧挂单缺少订单 ID"))
                    }
                },
                Some(id) => {
                    let phase = if algo { SubmitPhase::AwaitAlgoCancel } else { SubmitPhase::AwaitCancel };
                    let mut n = copy_state(s, phase);
                    n.queue = copy_orders(q, i + 1);
                    n.current = id.clone();
                    if algo {
                        (n, VenueAction::CancelAlgoOrder(id.clone()))
                    } else {
                        (n, VenueAction::CancelOrder(id.clone()))
                    }
                },
            }
        },
    }
}

/// The positions' refusal, looked for in order.
fn positions_check(sizes: &Vec<Option<bool>>, block: bool, inst_id: &str) -> (r: Option<String>)
    ensures
        match r {
            Some(m) => positions_refusal(sizes@, block, inst_id@) == Some(m@),
            None => positions_refusal(sizes@, block, inst_id@) is None,
        },
{
    let mut i: usize = 0;
    proof {
        assert(sizes@.skip(0) =~= sizes@);
    }
    while i < sizes.len()
        invariant
            0 <= i <= sizes.len(),
            positions_refusal(sizes@, block, inst_id@) == positions_refusal(sizes@.skip(i as int), block, inst_id@),
        decreases sizes.len() - i,
    {
        proof {
            assert(sizes@.skip(i as int).drop_first() =~= sizes@.skip(i + 1));
            assert(sizes@.skip(i as int)[0] == sizes@[i as int]);
        }
        match sizes[i] {
            None => return Some(String::from_str("持仓数量无效，拒绝新开仓")),
            Some(nonzero) => {
                if block && nonzero {
                    return Some(concat2(inst_id, " 已存在活跃持仓，系统已启用持仓互斥保护（禁止同向加仓）"));
                }
            },
        }
        i += 1;
    }
    proof {
        assert(sizes@.skip(sizes.len() as int).len() == 0);
    }
    None
}

/// Whether every position is readable and flat.
fn positions_flat(sizes: &Vec<Option<bool>>) -> (r: bool)
    ensures
        r == all_flat(sizes@),
{
    let mut i: usize = 0;
    while i < sizes.len()
        invariant
            0 <= i <= sizes.len(),
            forall|j: int| 0 <= j < i ==> sizes@[j] == Some(false),
        decreases sizes.len() - i,
    {
        match sizes[i] {
            Some(false) => {},
            _ => return false,
        }
        i += 1;
    }
    true
}

/// Decides the next venue call of a submission from its state and what the
/// last call returned.
pub fn submission_step(state: &SubmitState, event: &VenueEvent) -> (r: (SubmitState, VenueAction))
    ensures
        (r.0@, r.1@) == spec_submission_step(state@, *event),
{
    match (state.phase, event) {
        (SubmitPhase::Start, VenueEvent::Begin { inst_id, derivative, block_when_open, already_seen }) => {
            let mut b = copy_state(state, SubmitPhase::Start);
            b.inst_id = inst_id.clone();
            b.derivative = *derivative;
            b.block_when_open = *block_when_open;
            if *already_seen {
                refuse(&b, String::from_str("重复信号 (当前K线周期已处理或挂单)"))
            } else if *derivative {
                (copy_state(&b, SubmitPhase::CheckPositions), VenueAction::GetPositions)
            } else {
                (copy_state(&b, SubmitPhase::ListOrders), VenueAction::ListPendingOrders)
            }
        },
        (SubmitPhase::CheckPositions, VenueEvent::Positions(sizes)) => {
            match positions_check(sizes, state.block_when_open, state.inst_id.as_str()) {
                Some(m) => refuse(state, m),
                None => (copy_state(state, SubmitPhase::SetLeverage), VenueAction::SetLeverage),
            }
        },
        (SubmitPhase::SetLeverage, VenueEvent::LeverageSet) => (copy_state(state, SubmitPhase::ListOrders), VenueAction::ListPendingOrders),
        (SubmitPhase::ListOrders, VenueEvent::PendingOrders(rows)) => take_next_exec(state, rows, false),
        (SubmitPhase::AwaitCancel, VenueEvent::Cancelled) => (
            copy_state(state, SubmitPhase::AwaitOrderState),
            VenueAction::GetOrder(state.current.clone()),
        ),
        (SubmitPhase::AwaitOrderState, VenueEvent::OrderState { canceled, nothing_filled }) => {
            if *canceled && *nothing_filled {
                take_next_exec(state, &state.queue, false)
            } else {
                refuse(state, String::from_str("旧挂单已成交、部分成交或撤单尚未确认，暂停替换"))
            }
        },
        (SubmitPhase::ListAlgoOrders, VenueEvent::AlgoOrders(rows)) => take_next_exec(state, rows, true),
        (SubmitPhase::AwaitAlgoCancel, VenueEvent::Cancelled) => (
            copy_state(state, SubmitPhase::AwaitAlgoState),
            VenueAction::GetAlgoOrder(state.current.clone()),
        ),
        (SubmitPhase::AwaitAlgoState, VenueEvent::AlgoState { canceled }) => {
            if *canceled {
                take_next_exec(state, &state.queue, true)
            } else {
                refuse(state, String::from_str("旧策略单撤销尚未确认，暂停替换"))
            }
        },
        (SubmitPhase::RecheckPositions, VenueEvent::Positions(sizes)) => {
            if positions_flat(sizes) {
                (copy_state(state, SubmitPhase::RecheckAge), VenueAction::CheckAge)
            } else {
                refuse(state, String::from_str("提交前发现持仓变化或持仓数据无效，停止开仓"))
            }
        },
        (SubmitPhase::RecheckAge, VenueEvent::Age { fresh }) => {
            if *fresh {
                let mut n = copy_state(state, SubmitPhase::Marking);
                n.age_rechecked = true;
                (n, VenueAction::MarkSeen)
            } else {
                refuse(state, String::from_str("信号已过期，提交前停止执行"))
            }
        },
        (SubmitPhase::Marking, VenueEvent::Marked) => {
            let mut n = copy_state(state, SubmitPhase::Placing);
            n.seen_marked = true;
            (n, VenueAction::PlaceOrder)
        },
        (SubmitPhase::Placing, VenueEvent::Placed) => (copy_state(state, SubmitPhase::Done), VenueAction::Submitted),
        (SubmitPhase::Placing, VenueEvent::Failed(m)) => (copy_state(state, SubmitPhase::Done), VenueAction::Unconfirmed(m.clone())),
        (SubmitPhase::Start, _) => (copy_state(state, SubmitPhase::Start), VenueAction::Ignore),
        (SubmitPhase::Done, _) => (copy_state(state, SubmitPhase::Done), VenueAction::Ignore),
        (_, VenueEvent::Failed(m)) => refuse(state, m.clone()),
        _ => (copy_state(state, state.phase), VenueAction::Ignore),
    }
}

/// What holds of every state a submission reaches from its start: the
/// signal is marked seen only after the cancels were confirmed and the age
/// re-checked, and an order is awaited only once it is marked.
pub open spec fn submit_inv(s: SubmitStateView) -> bool {
    &&& s.age_rechecked ==> s.cancels_confirmed
    &&& s.seen_marked ==> s.age_rechecked
    &&& (s.phase == SubmitPhase::RecheckPositions || s.phase == SubmitPhase::RecheckAge) ==> s.cancels_confirmed
    &&& s.phase == SubmitPhase::Marking ==> s.age_rechecked
    &&& s.phase == SubmitPhase::Placing ==> s.seen_marked
    &&& s.phase == SubmitPhase::Start ==> !s.cancels_confirmed
}

/// A fresh submission satisfies the invariant.
pub proof fn lemma_new_submission_inv(s: SubmitStateView)
    requires
        s.phase == SubmitPhase::Start,
        !s.cancels_confirmed && !s.age_rechecked && !s.seen_marked,
    ensures
        submit_inv(s),
{
}

/// One signal is never submitted twice, and an order is never placed
/// unchecked: every step keeps the invariant; an order is asked for only
/// right after the signal was marked seen, which comes only after every
/// owned resting order was cancelled and confirmed and the signal's age
/// re-checked; a signal already seen is refused at once; and an open
/// position, while entries are blocked, refuses the entry.
pub proof fn law_submission_protections(s: SubmitStateView, e: VenueEvent)
    requires
        submit_inv(s),
    ensures
        submit_inv(spec_submission_step(s, e).0),
        spec_submission_step(s, e).1 is PlaceOrder ==> s.phase == SubmitPhase::Marking && e is Marked
            && spec_submission_step(s, e).0.seen_marked && s.cancels_confirmed && s.age_rechecked,
        spec_submission_step(s, e).1 is MarkSeen ==> s.cancels_confirmed && e matches VenueEvent::Age { fresh: true },
        (s.phase == SubmitPhase::Start && e matches VenueEvent::Begin { already_seen: true, .. }) ==> spec_submission_step(
            s,
            e,
        ).1 == VenueActionView::Refuse(duplicate_reason()),
{
}

/// A non-zero position, read before any unreadable one, refuses the entry
/// when new entries are blocked.
pub proof fn law_open_position_refuses(sizes: Seq<Option<bool>>, inst_id: Seq<char>, k: int)
    requires
        0 <= k < sizes.len(),
        sizes[k] == Some(true),
        forall|j: int| 0 <= j < k ==> sizes[j] is Some,
    ensures
        positions_refusal(sizes, true, inst_id) is Some,
    decreases k,
{
    if k > 0 {
        law_open_position_refuses(sizes.drop_first(), inst_id, k - 1);
    }
}

} // verus!
