use vstd::prelude::*;

verus! {

/// The kind of device that measures a rotation.
#[derive(Debug, Clone, Copy, PartialEq, Eq, Structural)]
pub enum EncoderType {
    AdiEncoder,
    Motor,
    RotationSensor,
}

/// The number of readings in `ok` that succeeded.
pub open spec fn count_ok(ok: Seq<bool>) -> nat
    decreases ok.len(),
{
    if ok.len() == 0 {
        0
    } else {
        count_ok(ok.drop_last()) + if ok.last() {
            1nat
        } else {
            0nat
        }
    }
}

/// The index of the last failure in `ok`, if any failed.
pub open spec fn last_failure_of(ok: Seq<bool>) -> Option<int>
    decreases ok.len(),
{
    if ok.len() == 0 {
        None
    } else if !ok.last() {
        Some(ok.len() - 1)
    } else {
        last_failure_of(ok.drop_last())
    }
}

/// The kind of a group of encoders: that of its first member, and a motor
/// for an empty group.
pub open spec fn group_type_of(types: Seq<EncoderType>) -> EncoderType {
    if types.len() == 0 {
        EncoderType::Motor
    } else {
        types[0]
    }
}

/// The outcome of reading a group of encoders whose readings succeeded as
/// `ok` says: the number of readings to average, unless none succeeded and
/// one failed, in which case the last failure is reported.
pub open spec fn reading_outcome(ok: Seq<bool>) -> Result<nat, int> {
    match last_failure_of(ok) {
        Some(i) => if count_ok(ok) == 0 {
            Err(i)
        } else {
            Ok(count_ok(ok))
        },
        None => Ok(count_ok(ok)),
    }
}

/// How many members of a group of `len` encoders a reset goes through: all
/// but the last one.
pub open spec fn reset_span(len: nat) -> nat {
    if len == 0 {
        0
    } else {
        (len - 1) as nat
    }
}

proof fn lemma_take_step(ok: Seq<bool>, i: int)
    requires
        0 <= i < ok.len(),
    ensures
        ok.take(i + 1).drop_last() == ok.take(i),
        ok.take(i + 1).last() == ok[i],
        ok.take(i + 1).len() == i + 1,
{
    assert(ok.take(i + 1).drop_last() =~= ok.take(i));
}

/// The kind of a group of encoders, given the kinds of its members.
pub fn group_encoder_type(types: &Vec<EncoderType>) -> (t: EncoderType)
    ensures
        t == group_type_of(types@),
{
    if types.len() == 0 {
        EncoderType::Motor
    } else {
        types[0]
    }
}

/// The index of the last failure among the outcomes `ok`, if any failed.
pub fn last_failure(ok: &Vec<bool>) -> (r: Option<usize>)
    ensures
        r matches Some(i) ==> last_failure_of(ok@) == Some(i as int),
        r is None ==> last_failure_of(ok@) is None,
        r matches Some(i) ==> i < ok.len() && !ok[i as int] && forall|j: int|
            i < j < ok.len() ==> #[trigger] ok[j],
        r is None ==> forall|j: int| 0 <= j < ok.len() ==> #[trigger] ok[j],
{
    let mut found: Option<usize> = None;
    let mut i: usize = 0;
    while i < ok.len()
        invariant
            i <= ok.len(),
            found matches Some(k) ==> last_failure_of(ok@.take(i as int)) == Some(k as int),
            found is None ==> last_failure_of(ok@.take(i as int)) is None,
            found matches Some(k) ==> k < i && !ok[k as int] && forall|j: int|
                k < j < i ==> #[trigger] ok[j],
            found is None ==> forall|j: int| 0 <= j < i ==> #[trigger] ok[j],
        decreases ok.len() - i,
    {
        proof {
            lemma_take_step(ok@, i as int);
        }
        if !ok[i] {
            found = Some(i);
        }
        i = i + 1;
    }
    assert(ok@.take(ok.len() as int) =~= ok@);
    found
}

/// Combines the readings of a group of encoders: `Ok` with the number of
/// successful readings to average over, or, when no reading succeeded and at
/// least one failed, `Err` with the index of the last failure.
pub fn combine_readings(ok: &Vec<bool>) -> (r: Result<usize, usize>)
    ensures
        r matches Ok(n) ==> reading_outcome(ok@) == Ok::<nat, int>(n as nat),
        r matches Err(i) ==> reading_outcome(ok@) == Err::<nat, int>(i as int),
{
    let mut n: usize = 0;
    let mut i: usize = 0;
    while i < ok.len()
        invariant
            i <= ok.len(),
            n == count_ok(ok@.take(i as int)),
            n <= i,
        decreases ok.len() - i,
    {
        proof {
            lemma_take_step(ok@, i as int);
        }
        if ok[i] {
            n = n + 1;
        }
        i = i + 1;
    }
    assert(ok@.take(ok.len() as int) =~= ok@);
    let last = last_failure(ok);
    match last {
        Some(k) => if n == 0 {
            Err(k)
        } else {
            Ok(n)
        },
        None => Ok(n),
    }
}

/// How many members, counted from the first, a reset of a group of `len`
/// encoders goes through.
pub fn reset_count(len: usize) -> (n: usize)
    ensures
        n == reset_span(len as nat),
{
    if len == 0 {
        0
    } else {
        len - 1
    }
}

proof fn lemma_count_ok_zero(ok: Seq<bool>)
    ensures
        count_ok(ok) == 0 <==> forall|j: int| 0 <= j < ok.len() ==> !#[trigger] ok[j],
    decreases ok.len(),
{
    if ok.len() > 0 {
        let rest = ok.drop_last();
        lemma_count_ok_zero(rest);
        if count_ok(ok) == 0 {
            assert forall|j: int| 0 <= j < ok.len() implies !#[trigger] ok[j] by {
                if j < ok.len() - 1 {
                    assert(rest[j] == ok[j]);
                }
            }
        } else {
            if forall|j: int| 0 <= j < ok.len() ==> !#[trigger] ok[j] {
                assert(!ok[ok.len() - 1]);
                assert forall|j: int| 0 <= j < rest.len() implies !#[trigger] rest[j] by {
                    assert(!ok[j]);
                }
            }
        }
    }
}

/// A group of encoders reports a position whenever at least one member could
/// be read, averaging over exactly those that could; it reports an error
/// only when no member could be read, and then it is the last member's; an
/// empty group reports a position over no readings.
pub proof fn lemma_group_reading(ok: Seq<bool>)
    ensures
        (exists|j: int| 0 <= j < ok.len() && #[trigger] ok[j]) ==> reading_outcome(ok) == Ok::<
            nat,
            int,
        >(count_ok(ok)),
        (exists|j: int| 0 <= j < ok.len() && #[trigger] ok[j]) ==> count_ok(ok) > 0,
        ok.len() > 0 && (forall|j: int| 0 <= j < ok.len() ==> !#[trigger] ok[j]) ==> reading_outcome(
            ok,
        ) == Err::<nat, int>(ok.len() - 1),
        ok.len() == 0 ==> reading_outcome(ok) == Ok::<nat, int>(0),
{
    lemma_count_ok_zero(ok);
    if ok.len() > 0 && (forall|j: int| 0 <= j < ok.len() ==> !#[trigger] ok[j]) {
        assert(!ok[ok.len() - 1]);
    }
}

/// The count of successful readings and the last failure are built up one
/// reading at a time: none for no readings; a success adds one to the count
/// and keeps the last failure; a failure keeps the count and becomes the last
/// failure.
pub proof fn lemma_reading_steps(ok: Seq<bool>)
    ensures
        count_ok(Seq::<bool>::empty()) == 0,
        last_failure_of(Seq::<bool>::empty()) is None,
        count_ok(ok.push(true)) == count_ok(ok) + 1,
        count_ok(ok.push(false)) == count_ok(ok),
        last_failure_of(ok.push(true)) == last_failure_of(ok),
        last_failure_of(ok.push(false)) == Some(ok.len() as int),
{
    assert(ok.push(true).drop_last() =~= ok);
    assert(ok.push(false).drop_last() =~= ok);
}

/// The count of successful readings is the number of readings that succeeded.
pub proof fn lemma_count_ok_is_successes(ok: Seq<bool>)
    ensures
        count_ok(ok) == ok.filter(|b: bool| b).len(),
    decreases ok.len(),
{
    if ok.len() > 0 {
        lemma_count_ok_is_successes(ok.drop_last());
        assert(ok.drop_last().push(ok.last()) =~= ok);
        ok.drop_last().lemma_filter_push(ok.last(), |b: bool| b);
    }
}

/// A group's kind is a motor when it is empty, and its first member's kind
/// otherwise; a reset of a non-empty group goes through every member but the
/// last, and of an empty group through none.
pub proof fn lemma_group_kind_and_reset(t: EncoderType, rest: Seq<EncoderType>, len: nat)
    ensures
        group_type_of(Seq::<EncoderType>::empty()) == EncoderType::Motor,
        group_type_of(seq![t] + rest) == t,
        reset_span(0) == 0,
        len > 0 ==> reset_span(len) + 1 == len,
{
    assert((seq![t] + rest)[0] == t);
}

} // verus!
