//! The layout: the monitors of one status text, in the order in which the
//! text lists them, and how a monitor is found in it.

use crate::monitor::{monitor_of, Monitor, MonitorView, ParseError};
use crate::number::{parse_usize, small_number};
use crate::text::{blocks, cut_block, equal};
use vstd::prelude::*;

verus! {

/// The monitors of one status text, in its order.
#[derive(Clone, Debug, PartialEq, Eq)]
pub struct Setup {
    pub monitors: Vec<Monitor>,
}

impl View for Setup {
    type V = Seq<MonitorView>;

    open spec fn view(&self) -> Seq<MonitorView> {
        self.monitors@.map_values(|mon: Monitor| mon@)
    }
}

/// Whether a block holds nothing: no character, or one newline.
pub open spec fn is_blank(block: Seq<char>) -> bool {
    block.len() == 0 || (block.len() == 1 && block[0] == '\n')
}

/// The blocks of a status text that describe monitors: all of its blocks,
/// but for a last block that holds nothing.
pub open spec fn records(text: Seq<char>) -> Seq<Seq<char>> {
    let all = blocks(text);
    if is_blank(all.last()) {
        all.drop_last()
    } else {
        all
    }
}

/// Whether `layout` is what `text` reads as: the monitors of its records in
/// their order where every record can be read, else the error of the first
/// record that cannot.
pub open spec fn reads_as(text: Seq<char>, layout: Result<Seq<MonitorView>, ParseError>) -> bool {
    let recs = records(text);
    match layout {
        Ok(monitors) => {
            &&& monitors.len() == recs.len()
            &&& forall|i: int|
                0 <= i < recs.len() ==> monitor_of(#[trigger] recs[i]) == Ok::<
                    MonitorView,
                    ParseError,
                >(monitors[i])
        },
        Err(e) => exists|k: int|
            {
                &&& 0 <= k < recs.len()
                &&& monitor_of(#[trigger] recs[k]) == Err::<MonitorView, ParseError>(e)
                &&& forall|j: int| 0 <= j < k ==> monitor_of(#[trigger] recs[j]) is Ok
            },
    }
}

/// What `Setup::new` returned, as `reads_as` takes it.
pub open spec fn layout_view(r: Result<Setup, ParseError>) -> Result<Seq<MonitorView>, ParseError> {
    match r {
        Ok(setup) => Ok(setup@),
        Err(e) => Err(e),
    }
}

/// A status text reads as one thing only.
pub proof fn lemma_reads_as_one(
    text: Seq<char>,
    a: Result<Seq<MonitorView>, ParseError>,
    b: Result<Seq<MonitorView>, ParseError>,
)
    requires
        reads_as(text, a),
        reads_as(text, b),
    ensures
        a == b,
{
    let recs = records(text);
    match (a, b) {
        (Ok(x), Ok(y)) => {
            assert forall|i: int| 0 <= i < x.len() implies x[i] == y[i] by {
                assert(monitor_of(recs[i]) == Ok::<MonitorView, ParseError>(x[i]));
            }
            assert(x =~= y);
        },
        (Err(e), Err(f)) => {
            let k = choose|k: int|
                {
                    &&& 0 <= k < recs.len()
                    &&& monitor_of(#[trigger] recs[k]) == Err::<MonitorView, ParseError>(e)
                    &&& forall|j: int| 0 <= j < k ==> monitor_of(#[trigger] recs[j]) is Ok
                };
            let l = choose|l: int|
                {
                    &&& 0 <= l < recs.len()
                    &&& monitor_of(#[trigger] recs[l]) == Err::<MonitorView, ParseError>(f)
                    &&& forall|j: int| 0 <= j < l ==> monitor_of(#[trigger] recs[j]) is Ok
                };
            if k < l {
                assert(monitor_of(recs[k]) is Ok);
            } else if l < k {
                assert(monitor_of(recs[l]) is Ok);
            }
        },
        (Ok(x), Err(f)) => {
            let l = choose|l: int|
                {
                    &&& 0 <= l < recs.len()
                    &&& monitor_of(#[trigger] recs[l]) == Err::<MonitorView, ParseError>(f)
                    &&& forall|j: int| 0 <= j < l ==> monitor_of(#[trigger] recs[j]) is Ok
                };
            assert(monitor_of(recs[l]) is Ok);
        },
        (Err(e), Ok(y)) => {
            let k = choose|k: int|
                {
                    &&& 0 <= k < recs.len()
                    &&& monitor_of(#[trigger] recs[k]) == Err::<MonitorView, ParseError>(e)
                    &&& forall|j: int| 0 <= j < k ==> monitor_of(#[trigger] recs[j]) is Ok
                };
            assert(monitor_of(recs[k]) is Ok);
        },
    }
}

/// Index of the first monitor of `layout` that is `wanted`, or the length of
/// `layout` where none is.
pub open spec fn first_where(layout: Seq<MonitorView>, wanted: spec_fn(MonitorView) -> bool) -> int
    decreases layout.len(),
{
    if layout.len() == 0 || wanted(layout[0]) {
        0
    } else {
        1 + first_where(layout.drop_first(), wanted)
    }
}

/// `first_where` is the least index of a wanted monitor.
pub proof fn lemma_first_where(layout: Seq<MonitorView>, wanted: spec_fn(MonitorView) -> bool)
    ensures
        0 <= first_where(layout, wanted) <= layout.len(),
        first_where(layout, wanted) < layout.len() ==> wanted(layout[first_where(layout, wanted)]),
        forall|j: int| 0 <= j < first_where(layout, wanted) ==> !wanted(#[trigger] layout[j]),
    decreases layout.len(),
{
    if layout.len() == 0 || wanted(layout[0]) {
    } else {
        let rest = layout.drop_first();
        lemma_first_where(rest, wanted);
        assert forall|j: int| 0 <= j < first_where(layout, wanted) implies !wanted(
            #[trigger] layout[j],
        ) by {
            if j > 0 {
                assert(layout[j] == rest[j - 1]);
            }
        }
    }
}

/// Index of the first wanted monitor, where there is one.
pub open spec fn found(layout: Seq<MonitorView>, wanted: spec_fn(MonitorView) -> bool) -> Option<
    int,
> {
    let at = first_where(layout, wanted);
    if at < layout.len() {
        Some(at)
    } else {
        None
    }
}

/// The monitors whose name is `name`.
pub open spec fn named(name: Seq<char>) -> spec_fn(MonitorView) -> bool {
    |mon: MonitorView| mon.ctlname == name
}

/// The monitors whose number is `id`.
pub open spec fn numbered(id: usize) -> spec_fn(MonitorView) -> bool {
    |mon: MonitorView| mon.id == id
}

/// Index of the first monitor named `name`.
pub open spec fn by_name(layout: Seq<MonitorView>, name: Seq<char>) -> Option<int> {
    found(layout, named(name))
}

/// Index of the first monitor whose number `text` writes; none where
/// `text` writes no number.
pub open spec fn by_id(layout: Seq<MonitorView>, text: Seq<char>) -> Option<int> {
    match small_number(text) {
        Some(id) => found(layout, numbered(id)),
        None => None,
    }
}

/// Index of the monitor that `token` stands for: the first one of that
/// name, and only where no monitor has that name the first one of that
/// number.
pub open spec fn by_name_or_id(layout: Seq<MonitorView>, token: Seq<char>) -> Option<int> {
    match by_name(layout, token) {
        Some(at) => Some(at),
        None => by_id(layout, token),
    }
}

/// A name goes before a number: where a monitor of the layout is named
/// `token`, `token` stands for the first monitor of that name, whatever
/// numbers the monitors have.
pub proof fn lemma_name_goes_first(layout: Seq<MonitorView>, token: Seq<char>, at: int)
    requires
        0 <= at < layout.len(),
        layout[at].ctlname == token,
    ensures
        by_name_or_id(layout, token) == by_name(layout, token),
        by_name_or_id(layout, token) is Some,
        0 <= by_name_or_id(layout, token)->0 <= at,
        layout[by_name_or_id(layout, token)->0].ctlname == token,
{
    lemma_first_where(layout, named(token));
    assert(named(token)(layout[at]));
}

/// A token that stands for a monitor stands for one of the layout that has
/// it as its name or writes its number.
pub proof fn lemma_found_is_meant(layout: Seq<MonitorView>, token: Seq<char>)
    requires
        by_name_or_id(layout, token) is Some,
    ensures
        0 <= by_name_or_id(layout, token)->0 < layout.len(),
        layout[by_name_or_id(layout, token)->0].ctlname == token || small_number(token) == Some(
            layout[by_name_or_id(layout, token)->0].id,
        ),
{
    lemma_first_where(layout, named(token));
    if let Some(id) = small_number(token) {
        lemma_first_where(layout, numbered(id));
    }
}

/// Whether the index `got` is the index `want`.
pub open spec fn same_index(got: Option<usize>, want: Option<int>) -> bool {
    match got {
        Some(at) => want == Some(at as int),
        None => want is None,
    }
}

/// Whether `got` is the monitor of `setup` at the index `want`.
pub open spec fn monitor_at(setup: &Setup, got: Option<&Monitor>, want: Option<int>) -> bool {
    match want {
        Some(at) => 0 <= at < setup.monitors.len() && got == Some(&setup.monitors[at]),
        None => got is None,
    }
}

/// Whether `block` holds nothing.
fn blank(block: &str) -> (r: bool)
    ensures
        r == is_blank(block@),
{
    let len = block.unicode_len();
    len == 0 || (len == 1 && block.get_char(0) == '\n')
}

impl Setup {
    /// Reads the layout from the status text of the compositor. Records are
    /// separated by blank lines; a last block that holds nothing is no
    /// record. The first record that cannot be read ends the reading with
    /// its error.
    pub fn new(snapshot: &str) -> (r: Result<Setup, ParseError>)
        ensures
            reads_as(snapshot@, layout_view(r)),
    {
        let mut monitors: Vec<Monitor> = Vec::new();
        let mut rest = snapshot;
        let ghost mut done: Seq<Seq<char>> = Seq::empty();
        loop
            invariant
                blocks(snapshot@) == done + blocks(rest@),
                monitors.len() == done.len(),
                forall|i: int|
                    0 <= i < done.len() ==> monitor_of(#[trigger] done[i]) == Ok::<
                        MonitorView,
                        ParseError,
                    >(monitors[i]@),
            decreases rest@.len(),
        {
            let (block, after) = cut_block(rest);
            let ghost all = blocks(snapshot@);
            let last = after.is_none();
            if last && blank(block) {
                proof {
                    assert(all =~= done.push(block@));
                    assert(records(snapshot@) =~= done);
                }
                let setup = Setup { monitors };
                proof {
                    assert(setup@.len() == done.len());
                    assert forall|i: int| 0 <= i < done.len() implies monitor_of(
                        #[trigger] done[i],
                    ) == Ok::<MonitorView, ParseError>(setup@[i]) by {
                        assert(setup@[i] == setup.monitors[i]@);
                    }
                }
                return Ok(setup);
            }
            proof {
                assert(all[done.len() as int] == block@);
                assert(records(snapshot@).len() > done.len());
                assert(records(snapshot@)[done.len() as int] == block@);
                assert forall|j: int| 0 <= j < done.len() implies records(snapshot@)[j]
                    == done[j] by {
                    assert(all[j] == done[j]);
                }
            }
            match Monitor::from_str(block) {
                Ok(mon) => {
                    monitors.push(mon);
                },
                Err(e) => {
                    proof {
                        let recs = records(snapshot@);
                        let k = done.len() as int;
                        assert(monitor_of(recs[k]) == Err::<MonitorView, ParseError>(e));
                        assert forall|j: int| 0 <= j < k implies monitor_of(
                            #[trigger] recs[j],
                        ) is Ok by {
                            assert(recs[j] == done[j]);
                        }
                    }
                    return Err(e);
                },
            }
            proof {
                done = done.push(block@);
            }
            match after {
                Some(next) => {
                    proof {
                        assert(all =~= done + blocks(next@));
                    }
                    rest = next;
                },
                None => {
                    proof {
                        assert(all =~= done);
                        assert(records(snapshot@) =~= done);
                    }
                    let setup = Setup { monitors };
                    proof {
                        assert(setup@.len() == done.len());
                        assert forall|i: int| 0 <= i < done.len() implies monitor_of(
                            #[trigger] done[i],
                        ) == Ok::<MonitorView, ParseError>(setup@[i]) by {
                            assert(setup@[i] == setup.monitors[i]@);
                        }
                    }
                    return Ok(setup);
                },
            }
        }
    }

    /// Index of the first monitor named `mon_name`.
    pub fn index_from_name(&self, mon_name: &str) -> (r: Option<usize>)
        ensures
            same_index(r, by_name(self@, mon_name@)),
    {
        proof {
            lemma_first_where(self@, named(mon_name@));
        }
        let mut at: usize = 0;
        while at < self.monitors.len()
            invariant
                at <= self.monitors.len(),
                forall|j: int| 0 <= j < at ==> !named(mon_name@)(#[trigger] self@[j]),
            decreases self.monitors.len() - at,
        {
            if equal(self.monitors[at].ctlname.as_str(), mon_name) {
                proof {
                    lemma_first_where(self@, named(mon_name@));
                    assert(named(mon_name@)(self@[at as int]));
                }
                return Some(at);
            }
            at = at + 1;
        }
        None
    }

    /// Index of the first monitor whose number `rid` writes.
    pub fn index_from_id(&self, rid: &str) -> (r: Option<usize>)
        ensures
            same_index(r, by_id(self@, rid@)),
    {
        let id = match parse_usize(rid) {
            Some(id) => id,
            None => {
                return None;
            },
        };
        proof {
            lemma_first_where(self@, numbered(id));
        }
        let mut at: usize = 0;
        while at < self.monitors.len()
            invariant
                at <= self.monitors.len(),
                small_number(rid@) == Some(id),
                forall|j: int| 0 <= j < at ==> !numbered(id)(#[trigger] self@[j]),
            decreases self.monitors.len() - at,
        {
            if self.monitors[at].id == id {
                proof {
                    lemma_first_where(self@, numbered(id));
                    assert(numbered(id)(self@[at as int]));
                }
                return Some(at);
            }
            at = at + 1;
        }
        None
    }

    /// Index of the monitor that `name_or_id` stands for. A name goes
    /// before a number.
    pub fn index_from_id_or_name(&self, name_or_id: &str) -> (r: Option<usize>)
        ensures
            same_index(r, by_name_or_id(self@, name_or_id@)),
    {
        match self.index_from_name(name_or_id) {
            Some(at) => Some(at),
            None => self.index_from_id(name_or_id),
        }
    }

    /// The first monitor named `mon_name`.
    pub fn get_monitor_from_name(&self, mon_name: &str) -> (r: Option<&Monitor>)
        ensures
            monitor_at(self, r, by_name(self@, mon_name@)),
    {
        match self.index_from_name(mon_name) {
            Some(at) => {
                proof {
                    lemma_first_where(self@, named(mon_name@));
                }
                Some(&self.monitors[at])
            },
            None => None,
        }
    }

    /// The first monitor whose number `rid` writes.
    pub fn get_monitor_from_id(&self, rid: &str) -> (r: Option<&Monitor>)
        ensures
            monitor_at(self, r, by_id(self@, rid@)),
    {
        match self.index_from_id(rid) {
            Some(at) => {
                proof {
                    lemma_first_where(self@, numbered(small_number(rid@)->0));
                }
                Some(&self.monitors[at])
            },
            None => None,
        }
    }

    /// The monitor that `name_or_id` stands for: the first one of that name,
    /// and only where there is none the first one of that number.
    pub fn get_monitor_from_id_or_name(&self, name_or_id: &str) -> (r: Option<&Monitor>)
        ensures
            monitor_at(self, r, by_name_or_id(self@, name_or_id@)),
    {
        match self.get_monitor_from_name(name_or_id) {
            Some(mon) => Some(mon),
            None => self.get_monitor_from_id(name_or_id),
        }
    }
}

} // verus!
