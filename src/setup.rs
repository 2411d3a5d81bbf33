use vstd::prelude::*;
use crate::screens::{Output, OutputView, Position};

verus! {

/// Why an arrangement could not be parsed or planned.
#[derive(Debug, Clone, Copy, PartialEq, Eq, Structural)]
pub enum SetupError {
    /// The arrangement holds a character that is not a decimal digit.
    NotADigit(char),
    /// More outputs were requested than were discovered.
    TooManyOutputs { requested: usize, available: usize },
    /// An index names no discovered output.
    UnknownOutput(usize),
    /// A placement offset does not fit the compositor's coordinate type.
    PositionOutOfRange,
}

/// One step of applying an arrangement.
#[derive(Debug, Clone, Copy, PartialEq, Eq, Structural)]
pub enum SetupAction {
    /// Turn off the output at this index of the discovered list.
    Disable(usize),
    /// Turn on the output at this index and place it at `position`.
    Enable { index: usize, position: Position },
}

/// The value of a decimal digit, or `None` for any other character.
pub open spec fn digit_value(c: char) -> Option<usize> {
    if '0' <= c && c <= '9' {
        Some((c as u32 - '0' as u32) as usize)
    } else {
        None
    }
}

/// Index of the first character of `s` that is not a decimal digit.
pub open spec fn first_non_digit(s: Seq<char>) -> Option<int> {
    if exists|i: int| 0 <= i < s.len() && digit_value(s[i]) is None {
        Some(
            choose|i: int|
                0 <= i < s.len() && digit_value(s[i]) is None && forall|j: int|
                    0 <= j < i ==> digit_value(#[trigger] s[j]) is Some,
        )
    } else {
        None
    }
}

fn digit(c: char) -> (r: Option<usize>)
    ensures
        r == digit_value(c),
{
    if '0' <= c && c <= '9' {
        Some((c as u32 - '0' as u32) as usize)
    } else {
        None
    }
}

/// Parses an arrangement: the first argument, one decimal digit per output
/// to enable, left to right. No argument means an empty arrangement.
pub fn parse_setup(arg: Vec<String>) -> (r: Result<Vec<usize>, SetupError>)
    ensures
        arg.len() == 0 ==> r is Ok && r->Ok_0@.len() == 0,
        arg.len() > 0 ==> match first_non_digit(arg[0]@) {
            None => r is Ok && r->Ok_0@ == arg[0]@.map_values(|c: char| digit_value(c)->Some_0),
            Some(i) => r == Err::<Vec<usize>, SetupError>(SetupError::NotADigit(arg[0]@[i])),
        },
{
    let mut out: Vec<usize> = Vec::new();
    if arg.len() == 0 {
        return Ok(out);
    }
    let s = arg[0].as_str();
    let n = s.unicode_len();
    let mut i: usize = 0;
    while i < n
        invariant
            arg.len() > 0,
            n == s@.len(),
            s@ == arg[0]@,
            0 <= i <= n,
            out@ == s@.subrange(0, i as int).map_values(|c: char| digit_value(c)->Some_0),
            forall|j: int| 0 <= j < i ==> digit_value(#[trigger] s@[j]) is Some,
        decreases n - i,
    {
        let c = s.get_char(i);
        match digit(c) {
            Some(d) => {
                out.push(d);
                assert(s@.subrange(0, i + 1) == s@.subrange(0, i as int).push(c));
            },
            None => {
                assert(first_non_digit(s@) == Some(i as int));
                return Err(SetupError::NotADigit(c));
            },
        }
        i = i + 1;
    }
    assert(s@.subrange(0, n as int) == s@);
    Ok(out)
}

/// Width used to place an output: that of its preferred mode, else that of
/// its current mode, else zero.
pub open spec fn placement_width(o: OutputView) -> int {
    match o.preferred_mode {
        Some(m) => m.resolution.width as int,
        None => match o.current_mode {
            Some(m) => m.resolution.width as int,
            None => 0,
        },
    }
}

/// Horizontal offset of the `k`-th output of the arrangement: the sum of
/// the placement widths of the outputs before it.
pub open spec fn offset(setup: Seq<usize>, outs: Seq<OutputView>, k: int) -> int
    decreases k,
{
    if k <= 0 {
        0
    } else {
        offset(setup, outs, k - 1) + placement_width(outs[setup[k - 1] as int])
    }
}

/// The indices below `n` that the arrangement does not list, ascending.
pub open spec fn unlisted(setup: Seq<usize>, n: int) -> Seq<usize>
    decreases n,
{
    if n <= 0 {
        Seq::empty()
    } else if setup.contains((n - 1) as usize) {
        unlisted(setup, n - 1)
    } else {
        unlisted(setup, n - 1).push((n - 1) as usize)
    }
}

/// Position of the first index of the arrangement that names no output.
pub open spec fn first_unknown(setup: Seq<usize>, n: int) -> Option<int> {
    if exists|k: int| 0 <= k < setup.len() && setup[k] >= n {
        Some(
            choose|k: int|
                0 <= k < setup.len() && setup[k] >= n && forall|j: int|
                    0 <= j < k ==> #[trigger] setup[j] < n,
        )
    } else {
        None
    }
}

/// Whether every offset of the arrangement is a valid coordinate.
pub open spec fn offsets_fit(setup: Seq<usize>, outs: Seq<OutputView>) -> bool {
    forall|k: int|
        0 <= k < setup.len() ==> i32::MIN <= #[trigger] offset(setup, outs, k) <= i32::MAX
}

/// The steps that apply an arrangement: when it is not empty, disable every
/// unlisted output in index order; then enable the listed ones left to
/// right, each at the offset of the ones before it.
pub open spec fn planned(setup: Seq<usize>, outs: Seq<OutputView>) -> Seq<SetupAction> {
    let disable = if setup.len() == 0 {
        Seq::empty()
    } else {
        unlisted(setup, outs.len() as int).map_values(|i: usize| SetupAction::Disable(i))
    };
    disable + Seq::new(
        setup.len(),
        |k: int|
            SetupAction::Enable {
                index: setup[k],
                position: Position { x: offset(setup, outs, k) as i32, y: 0 },
            },
    )
}

fn placement_width_of(o: &Output) -> (r: i32)
    ensures
        r == placement_width(o@),
{
    match o.preferred_mode {
        Some(m) => m.resolution.width,
        None => match o.current_mode {
            Some(m) => m.resolution.width,
            None => 0,
        },
    }
}

fn listed(setup: &Vec<usize>, i: usize) -> (r: bool)
    ensures
        r == setup@.contains(i),
{
    let mut k: usize = 0;
    while k < setup.len()
        invariant
            0 <= k <= setup.len(),
            forall|j: int| 0 <= j < k ==> setup@[j] != i,
        decreases setup.len() - k,
    {
        if setup[k] == i {
            assert(setup@[k as int] == i);
            return true;
        }
        k = k + 1;
    }
    false
}

/// Plans an arrangement of the discovered `outputs`: which to disable and
/// where to place the ones to enable.
pub fn plan_setup(setup: &Vec<usize>, outputs: &Vec<Output>) -> (r: Result<
    Vec<SetupAction>,
    SetupError,
>)
    ensures
        ({
            let outs = outputs@.map_values(|o: Output| o@);
            if setup.len() > outputs.len() {
                r == Err::<Vec<SetupAction>, SetupError>(
                    SetupError::TooManyOutputs { requested: setup.len(), available: outputs.len() },
                )
            } else if first_unknown(setup@, outputs.len() as int) is Some {
                r == Err::<Vec<SetupAction>, SetupError>(
                    SetupError::UnknownOutput(
                        setup@[first_unknown(setup@, outputs.len() as int)->Some_0],
                    ),
                )
            } else if !offsets_fit(setup@, outs) {
                r == Err::<Vec<SetupAction>, SetupError>(SetupError::PositionOutOfRange)
            } else {
                r is Ok && r->Ok_0@ == planned(setup@, outs)
            }
        }),
{
    let ghost outs = outputs@.map_values(|o: Output| o@);
    let n = outputs.len();
    if setup.len() > n {
        return Err(SetupError::TooManyOutputs { requested: setup.len(), available: n });
    }
    let mut k: usize = 0;
    while k < setup.len()
        invariant
            0 <= k <= setup.len(),
            n == outputs.len(),
            setup.len() <= n,
            forall|j: int| 0 <= j < k ==> #[trigger] setup@[j] < n,
        decreases setup.len() - k,
    {
        if setup[k] >= n {
            assert(first_unknown(setup@, n as int) == Some(k as int));
            assert(setup@[first_unknown(setup@, n as int)->Some_0] == setup[k as int]);
            return Err(SetupError::UnknownOutput(setup[k]));
        }
        k = k + 1;
    }
    assert(first_unknown(setup@, n as int) is None);
    let mut actions: Vec<SetupAction> = Vec::new();
    if setup.len() > 0 {
        let mut i: usize = 0;
        while i < n
            invariant
                0 <= i <= n,
                n == outputs.len(),
                setup.len() > 0,
                actions@ == unlisted(setup@, i as int).map_values(|j: usize| SetupAction::Disable(j)),
            decreases n - i,
        {
            if !listed(setup, i) {
                actions.push(SetupAction::Disable(i));
            }
            assert(unlisted(setup@, i + 1) == if setup@.contains(i) {
                unlisted(setup@, i as int)
            } else {
                unlisted(setup@, i as int).push(i)
            });
            assert(actions@ =~= unlisted(setup@, i + 1).map_values(|j: usize| SetupAction::Disable(j)));
            i = i + 1;
        }
    }
    let ghost disabled = actions@;
    let mut x: i64 = 0;
    k = 0;
    while k < setup.len()
        invariant
            0 <= k <= setup.len(),
            n == outputs.len(),
            setup.len() <= n,
            first_unknown(setup@, n as int) is None,
            outs == outputs@.map_values(|o: Output| o@),
            forall|j: int| 0 <= j < setup.len() ==> #[trigger] setup@[j] < n,
            x == offset(setup@, outs, k as int),
            forall|j: int| 0 <= j < k ==> i32::MIN <= #[trigger] offset(setup@, outs, j) <= i32::MAX,
            actions@ == disabled + Seq::new(
                k as nat,
                |j: int|
                    SetupAction::Enable {
                        index: setup@[j],
                        position: Position { x: offset(setup@, outs, j) as i32, y: 0 },
                    },
            ),
        decreases setup.len() - k,
    {
        if x < i32::MIN as i64 || x > i32::MAX as i64 {
            assert(!offsets_fit(setup@, outs));
            return Err(SetupError::PositionOutOfRange);
        }
        let index = setup[k];
        actions.push(SetupAction::Enable { index, position: Position { x: x as i32, y: 0 } });
        let w = placement_width_of(&outputs[index]);
        x = x + w as i64;
        k = k + 1;
        assert(actions@ =~= disabled + Seq::new(
            k as nat,
            |j: int|
                SetupAction::Enable {
                    index: setup@[j],
                    position: Position { x: offset(setup@, outs, j) as i32, y: 0 },
                },
        ));
    }
    assert(actions@ =~= planned(setup@, outs));
    Ok(actions)
}

} // verus!
