//! The fixed-capacity collections of `heapless` that the player is built on,
//! and what is taken for granted about them.
//!
//! Nothing in this file is proved. Each function here makes one call into
//! `heapless` and states what that call does, as read from the source of
//! `heapless` 0.8.0. Everything else in the crate is proved from these
//! statements.

use vstd::prelude::*;
use heapless::Deque;
use heapless::LinearMap;
use crate::assoc::position;
use crate::assoc::inserted;
use crate::assoc::swap_removed;
use crate::buzzer::SoundBuzzer;

verus! {

/// How many voices the player can hold.
pub const VOICE_CAPACITY: usize = 16;

/// How many tracks the player can follow at once.
pub const TRACK_CAPACITY: usize = 16;

/// `heapless::Deque`, a ring buffer of fixed capacity.
#[verifier::external_type_specification]
#[verifier::external_body]
#[verifier::reject_recursive_types(T)]
pub struct ExDeque<T, const N: usize>(heapless::Deque<T, N>);

/// `heapless::LinearMap`, a map of fixed capacity that keeps its pairs in a
/// vector and searches them from the front.
#[verifier::external_type_specification]
#[verifier::external_body]
#[verifier::reject_recursive_types(K)]
#[verifier::reject_recursive_types(V)]
pub struct ExLinearMap<K, V, const N: usize>(heapless::LinearMap<K, V, N>);

/// `heapless::Vec`, a vector of fixed capacity.
#[verifier::external_type_specification]
#[verifier::external_body]
#[verifier::reject_recursive_types(T)]
pub struct ExVec<T, const N: usize>(heapless::Vec<T, N>);

/// The voices in a queue, front first.
pub uninterp spec fn queued(queue: Deque<SoundBuzzer, 16>) -> Seq<SoundBuzzer>;

/// The keys in a queue of keys, front first.
pub uninterp spec fn queued_keys(keys: Deque<(u8, u8), 16>) -> Seq<(u8, u8)>;

/// The pairs in a map of bound voices, in the order of its vector.
pub uninterp spec fn bound(map: LinearMap<(u8, u8), SoundBuzzer, 16>) -> Seq<((u8, u8), SoundBuzzer)>;

/// `Deque::len`: the number of voices in the queue, which never exceeds the
/// capacity.
#[verifier::external_body]
pub(crate) fn queue_len(queue: &Deque<SoundBuzzer, 16>) -> (count: usize)
    ensures
        count == queued(*queue).len(),
        count <= VOICE_CAPACITY,
{
    queue.len()
}

/// `Deque::pop_front`: takes the voice at the front, or nothing from an empty
/// queue.
#[verifier::external_body]
pub(crate) fn queue_pop_front(queue: &mut Deque<SoundBuzzer, 16>) -> (front: Option<SoundBuzzer>)
    ensures
        queued(*old(queue)).len() == 0 ==> front is None && queued(*final(queue)) == queued(
            *old(queue),
        ),
        queued(*old(queue)).len() > 0 ==> front == Some(queued(*old(queue))[0]) && queued(
            *final(queue),
        ) == queued(*old(queue)).skip(1),
{
    queue.pop_front()
}

/// `Deque::push_back`: appends the voice at the back, or hands it back where
/// the queue is full.
#[verifier::external_body]
pub(crate) fn queue_push_back(queue: &mut Deque<SoundBuzzer, 16>, voice: SoundBuzzer) -> (pushed:
    Result<(), SoundBuzzer>)
    ensures
        queued(*old(queue)).len() < VOICE_CAPACITY ==> pushed is Ok && queued(*final(queue))
            == queued(*old(queue)).push(voice),
        queued(*old(queue)).len() >= VOICE_CAPACITY ==> pushed is Err && pushed->Err_0 == voice
            && queued(*final(queue)) == queued(*old(queue)),
{
    queue.push_back(voice)
}

/// `Deque::iter`: the voice at `index` of the queue, counted from the
/// front, or nothing where the queue is shorter.
#[verifier::external_body]
pub(crate) fn queue_voice(queue: &Deque<SoundBuzzer, 16>, index: usize) -> (voice: Option<
    SoundBuzzer,
>)
    ensures
        index < queued(*queue).len() ==> voice == Some(queued(*queue)[index as int]),
        index >= queued(*queue).len() ==> voice is None,
{
    queue.iter().nth(index).copied()
}

/// `Deque::new`: a queue without keys.
#[verifier::external_body]
pub(crate) fn keys_new() -> (keys: Deque<(u8, u8), 16>)
    ensures
        queued_keys(keys).len() == 0,
{
    Deque::new()
}

/// `Deque::push_back`: appends the key at the back, or hands it back where
/// the queue is full.
#[verifier::external_body]
pub(crate) fn keys_push_back(keys: &mut Deque<(u8, u8), 16>, key: (u8, u8)) -> (pushed: Result<
    (),
    (u8, u8),
>)
    ensures
        queued_keys(*old(keys)).len() < VOICE_CAPACITY ==> pushed is Ok && queued_keys(
            *final(keys),
        ) == queued_keys(*old(keys)).push(key),
        queued_keys(*old(keys)).len() >= VOICE_CAPACITY ==> pushed is Err && queued_keys(
            *final(keys),
        ) == queued_keys(*old(keys)),
{
    keys.push_back(key)
}

/// `Deque::pop_front`: takes the key at the front, or nothing from an empty
/// queue.
#[verifier::external_body]
pub(crate) fn keys_pop_front(keys: &mut Deque<(u8, u8), 16>) -> (front: Option<(u8, u8)>)
    ensures
        queued_keys(*old(keys)).len() == 0 ==> front is None && queued_keys(*final(keys))
            == queued_keys(*old(keys)),
        queued_keys(*old(keys)).len() > 0 ==> front == Some(queued_keys(*old(keys))[0])
            && queued_keys(*final(keys)) == queued_keys(*old(keys)).skip(1),
{
    keys.pop_front()
}

/// `LinearMap::new`: a map without pairs.
#[verifier::external_body]
pub(crate) fn bound_new() -> (map: LinearMap<(u8, u8), SoundBuzzer, 16>)
    ensures
        bound(map) == Seq::<((u8, u8), SoundBuzzer)>::empty(),
{
    LinearMap::new()
}

/// `LinearMap::len`: the number of pairs in the map, which never exceeds the
/// capacity.
#[verifier::external_body]
pub(crate) fn bound_len(map: &LinearMap<(u8, u8), SoundBuzzer, 16>) -> (count: usize)
    ensures
        count == bound(*map).len(),
        count <= VOICE_CAPACITY,
{
    map.len()
}

/// `LinearMap::iter`: the pair at `index` of the map's vector, or nothing
/// where the vector is shorter.
#[verifier::external_body]
pub(crate) fn bound_entry(map: &LinearMap<(u8, u8), SoundBuzzer, 16>, index: usize) -> (entry:
    Option<((u8, u8), SoundBuzzer)>)
    ensures
        index < bound(*map).len() ==> entry == Some(bound(*map)[index as int]),
        index >= bound(*map).len() ==> entry is None,
{
    map.iter().nth(index).map(|(key, voice)| (*key, *voice))
}

/// `LinearMap::insert`: the first pair with the key gets the new voice and
/// the old one is returned; without such a pair the new pair goes to the back
/// of the vector, or comes back as the error where the vector is full.
#[verifier::external_body]
pub(crate) fn bound_insert(
    map: &mut LinearMap<(u8, u8), SoundBuzzer, 16>,
    key: (u8, u8),
    voice: SoundBuzzer,
) -> (previous: Result<Option<SoundBuzzer>, ((u8, u8), SoundBuzzer)>)
    ensures
        position(bound(*old(map)), key) >= 0 ==> previous is Ok && previous->Ok_0 == Some(
            bound(*old(map))[position(bound(*old(map)), key)].1,
        ) && bound(*final(map)) == inserted(bound(*old(map)), key, voice),
        position(bound(*old(map)), key) < 0 && bound(*old(map)).len() < VOICE_CAPACITY ==> previous
            is Ok && previous->Ok_0 is None && bound(*final(map)) == inserted(
            bound(*old(map)),
            key,
            voice,
        ),
        position(bound(*old(map)), key) < 0 && bound(*old(map)).len() >= VOICE_CAPACITY
            ==> previous is Err && previous->Err_0 == (key, voice) && bound(*final(map)) == bound(
            *old(map),
        ),
{
    map.insert(key, voice)
}

/// `LinearMap::remove`: the first pair with the key leaves the vector, the
/// last pair takes its place, and its voice is returned; without such a pair
/// nothing changes.
#[verifier::external_body]
pub(crate) fn bound_remove(map: &mut LinearMap<(u8, u8), SoundBuzzer, 16>, key: (u8, u8)) -> (voice:
    Option<SoundBuzzer>)
    ensures
        position(bound(*old(map)), key) >= 0 ==> voice == Some(
            bound(*old(map))[position(bound(*old(map)), key)].1,
        ) && bound(*final(map)) == swap_removed(
            bound(*old(map)),
            position(bound(*old(map)), key),
        ),
        position(bound(*old(map)), key) < 0 ==> voice is None && bound(*final(map)) == bound(
            *old(map),
        ),
{
    map.remove(&key)
}

} // verus!
