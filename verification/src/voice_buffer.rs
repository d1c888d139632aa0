use vstd::prelude::*;

use crate::config::ChannelInitOptions;
use crate::voice::{ReleaseType, VoiceBase, VoiceGeneratorBase};

verus! {

/// What the buffer knows of a voice: the group it belongs to, its velocity
/// and whether it was released or killed.
#[derive(Debug, Clone, Copy, PartialEq, Eq, Structural)]
pub struct VoiceInfo {
    pub id: usize,
    pub velocity: u8,
    pub releasing: bool,
    pub killed: bool,
}

/// A voice together with the id of the note event that spawned it.
/// Voices spawned by the same event share an id and form a group.
pub struct GroupVoice<T> {
    pub id: usize,
    pub voice: VoiceBase<T>,
}

impl<T> GroupVoice<T> {
    pub open spec fn info(self) -> VoiceInfo {
        VoiceInfo {
            id: self.id,
            velocity: self.voice.spec_velocity(),
            releasing: self.voice.spec_releasing(),
            killed: self.voice.spec_killed(),
        }
    }
}

/// The information view of a sequence of voices.
pub open spec fn infos<T>(s: Seq<GroupVoice<T>>) -> Seq<VoiceInfo> {
    s.map_values(|g: GroupVoice<T>| g.info())
}

/// A voice that the quietest-group search passes over.
pub open spec fn is_skipped(v: VoiceInfo, ignored: usize) -> bool {
    v.id == ignored || v.killed
}

/// The search for the quietest voice group over the first `n` voices:
/// (lowest velocity, index of the first voice of the chosen group, its id,
/// number of voices counted in it).
pub open spec fn quietest_scan(s: Seq<VoiceInfo>, ignored: usize, n: int) -> (u8, int, usize, int)
    decreases n,
{
    if n <= 0 {
        (255u8, 0int, 0usize, 0int)
    } else {
        let prev = quietest_scan(s, ignored, n - 1);
        let i = n - 1;
        let v = s[i];
        if is_skipped(v, ignored) {
            prev
        } else if prev.2 == v.id {
            (prev.0, prev.1, prev.2, prev.3 + 1)
        } else if v.velocity < prev.0 || i == 0 {
            (v.velocity, i, v.id, 1int)
        } else {
            prev
        }
    }
}

/// The result of the quietest-group search over a whole sequence.
pub open spec fn quietest_group(s: Seq<VoiceInfo>, ignored: usize) -> (u8, int, usize, int) {
    quietest_scan(s, ignored, s.len() as int)
}

/// A voice after a release of type `rel` was signalled to it.
pub open spec fn released_info(v: VoiceInfo, rel: ReleaseType) -> VoiceInfo {
    VoiceInfo { id: v.id, velocity: v.velocity, releasing: true, killed: v.killed || rel == ReleaseType::Kill }
}

/// The voices after the quietest group (other than `ignored`) was removed,
/// or, with fade-out killing, killed.
pub open spec fn pop_infos(s: Seq<VoiceInfo>, ignored: usize, fade: bool) -> Seq<VoiceInfo> {
    let (_q, qi, _qid, c) = quietest_group(s, ignored);
    if c == 0 {
        s
    } else if fade {
        Seq::new(
            s.len(),
            |j: int|
                if qi <= j < qi + c {
                    released_info(s[j], ReleaseType::Kill)
                } else {
                    s[j]
                },
        )
    } else {
        s.subrange(0, qi) + s.subrange(qi + c, s.len() as int)
    }
}

/// Index of the first occurrence of `x` in `h` at or after `i` (`h.len()` if none).
pub open spec fn first_index_from(h: Seq<usize>, x: usize, i: int) -> int
    decreases h.len() - i,
{
    if i < 0 || i >= h.len() {
        h.len() as int
    } else if h[i] == x {
        i
    } else {
        first_index_from(h, x, i + 1)
    }
}

/// `h` with the first occurrence of `x` removed, if there is one.
pub open spec fn remove_first(h: Seq<usize>, x: usize) -> Seq<usize> {
    let k = first_index_from(h, x, 0);
    if k < h.len() {
        h.remove(k)
    } else {
        h
    }
}

/// The damper-held ids after the quietest group of `s` was popped.
pub open spec fn pop_held(held: Seq<usize>, s: Seq<VoiceInfo>, ignored: usize) -> Seq<usize> {
    let (_q, _qi, qid, c) = quietest_group(s, ignored);
    if c == 0 {
        held
    } else {
        remove_first(held, qid)
    }
}

/// Number of voices among the first `n` that satisfy `p`.
pub open spec fn count_where(s: Seq<VoiceInfo>, p: spec_fn(VoiceInfo) -> bool, n: int) -> nat
    decreases n,
{
    if n <= 0 {
        0
    } else {
        count_where(s, p, n - 1) + if p(s[n - 1]) { 1nat } else { 0nat }
    }
}

/// Voices that are not killed.
pub open spec fn pred_active() -> spec_fn(VoiceInfo) -> bool {
    |v: VoiceInfo| !v.killed
}

/// Voices of group `x` that are not killed.
pub open spec fn pred_active_in(x: usize) -> spec_fn(VoiceInfo) -> bool {
    |v: VoiceInfo| !v.killed && v.id == x
}

/// Voices of other groups than `x` that are not killed.
pub open spec fn pred_active_other(x: usize) -> spec_fn(VoiceInfo) -> bool {
    |v: VoiceInfo| !v.killed && v.id != x
}

/// Voices of group `x`.
pub open spec fn pred_in(x: usize) -> spec_fn(VoiceInfo) -> bool {
    |v: VoiceInfo| v.id == x
}

/// Voices of other groups than `x`.
pub open spec fn pred_other(x: usize) -> spec_fn(VoiceInfo) -> bool {
    |v: VoiceInfo| v.id != x
}

/// Every voice.
pub open spec fn pred_all() -> spec_fn(VoiceInfo) -> bool {
    |v: VoiceInfo| true
}

/// Number of voices that are not killed.
pub open spec fn active_count(s: Seq<VoiceInfo>) -> nat {
    count_where(s, pred_active(), s.len() as int)
}

/// Whether the voice limit `max` is exceeded: counting the voices that are
/// not killed with fade-out killing, and all voices otherwise.
pub open spec fn over_limit(s: Seq<VoiceInfo>, fade: bool, max: usize) -> bool {
    if fade {
        active_count(s) > max
    } else {
        s.len() > max
    }
}

/// Popping quietest groups while the limit is exceeded, at most `fuel` times.
pub open spec fn trimmed(
    s: Seq<VoiceInfo>,
    held: Seq<usize>,
    ignored: usize,
    fade: bool,
    max: usize,
    fuel: nat,
) -> (Seq<VoiceInfo>, Seq<usize>)
    decreases fuel,
{
    if fuel == 0 || !over_limit(s, fade, max) {
        (s, held)
    } else {
        trimmed(pop_infos(s, ignored, fade), pop_held(held, s, ignored), ignored, fade, max, (fuel - 1) as nat)
    }
}

proof fn lemma_scan_bounds(s: Seq<VoiceInfo>, ignored: usize, n: int)
    requires
        0 <= n <= s.len(),
        forall|j: int| 0 <= j < s.len() ==> s[j].id != 0 && s[j].velocity < 255,
    ensures
        ({
            let r = quietest_scan(s, ignored, n);
            &&& r.3 >= 0
            &&& r.3 > 0 ==> (0 <= r.1 < n && r.3 <= n - r.1 && !is_skipped(s[r.1], ignored) && s[r.1].id
                == r.2 && r.2 != ignored)
            &&& r.3 == 0 ==> r.2 == 0 && r.0 == 255 && r.1 == 0
        }),
        (exists|j: int| 0 <= j < n && !is_skipped(s[j], ignored)) ==> quietest_scan(s, ignored, n).3 > 0,
    decreases n,
{
    if n > 0 {
        lemma_scan_bounds(s, ignored, n - 1);
        if exists|j: int| 0 <= j < n && !is_skipped(s[j], ignored) {
            let j = choose|j: int| 0 <= j < n && !is_skipped(s[j], ignored);
            if j < n - 1 {
                assert(exists|j: int| 0 <= j < n - 1 && !is_skipped(s[j], ignored));
            }
        }
    }
}

proof fn lemma_count_bounds(s: Seq<VoiceInfo>, p: spec_fn(VoiceInfo) -> bool, n: int)
    requires
        0 <= n <= s.len(),
    ensures
        count_where(s, p, n) <= n,
        count_where(s, p, n) > 0 ==> exists|j: int| 0 <= j < n && p(s[j]),
    decreases n,
{
    if n > 0 {
        lemma_count_bounds(s, p, n - 1);
    }
}

proof fn lemma_count_mono(s: Seq<VoiceInfo>, t: Seq<VoiceInfo>, p: spec_fn(VoiceInfo) -> bool, n: int)
    requires
        0 <= n <= s.len(),
        n <= t.len(),
        forall|j: int| 0 <= j < n ==> (p(t[j]) ==> p(s[j])),
    ensures
        count_where(t, p, n) <= count_where(s, p, n),
        (exists|j: int| 0 <= j < n && p(s[j]) && !p(t[j])) ==> count_where(t, p, n) < count_where(s, p, n),
    decreases n,
{
    if n > 0 {
        lemma_count_mono(s, t, p, n - 1);
        if exists|j: int| 0 <= j < n && p(s[j]) && !p(t[j]) {
            let j = choose|j: int| 0 <= j < n && p(s[j]) && !p(t[j]);
            if j < n - 1 {
                assert(exists|j: int| 0 <= j < n - 1 && p(s[j]) && !p(t[j]));
            }
        }
    }
}

proof fn lemma_count_ext(s: Seq<VoiceInfo>, t: Seq<VoiceInfo>, p: spec_fn(VoiceInfo) -> bool, n: int)
    requires
        0 <= n <= s.len(),
        n <= t.len(),
        forall|j: int| 0 <= j < n ==> (p(t[j]) == p(s[j])),
    ensures
        count_where(t, p, n) == count_where(s, p, n),
    decreases n,
{
    if n > 0 {
        lemma_count_ext(s, t, p, n - 1);
    }
}

proof fn lemma_count_append(a: Seq<VoiceInfo>, b: Seq<VoiceInfo>, p: spec_fn(VoiceInfo) -> bool, n: int)
    requires
        0 <= n <= b.len(),
    ensures
        count_where(a + b, p, a.len() + n) == count_where(a, p, a.len() as int) + count_where(b, p, n),
    decreases n,
{
    if n > 0 {
        lemma_count_append(a, b, p, n - 1);
        assert((a + b)[a.len() + n - 1] == b[n - 1]);
    } else {
        lemma_count_ext(a, a + b, p, a.len() as int);
    }
}

proof fn lemma_count_split(s: Seq<VoiceInfo>, p: spec_fn(VoiceInfo) -> bool, q: spec_fn(VoiceInfo) -> bool, r: spec_fn(VoiceInfo) -> bool, n: int)
    requires
        0 <= n <= s.len(),
        forall|v: VoiceInfo| #[trigger] p(v) == (q(v) || r(v)),
        forall|v: VoiceInfo| !(#[trigger] q(v) && r(v)),
    ensures
        count_where(s, p, n) == count_where(s, q, n) + count_where(s, r, n),
    decreases n,
{
    if n > 0 {
        lemma_count_split(s, p, q, r, n - 1);
        assert(p(s[n - 1]) == (q(s[n - 1]) || r(s[n - 1])));
        assert(!(q(s[n - 1]) && r(s[n - 1])));
    }
}

proof fn lemma_first_index(h: Seq<usize>, x: usize, i: int, k: int)
    requires
        0 <= i <= k <= h.len(),
        forall|m: int| i <= m < k ==> h[m] != x,
        k == h.len() || h[k] == x,
    ensures
        first_index_from(h, x, i) == k,
    decreases k - i,
{
    if i < k {
        lemma_first_index(h, x, i + 1, k);
    }
}

/// Whether `v` contains `x`.
fn vec_contains(v: &Vec<usize>, x: usize) -> (r: bool)
    ensures
        r == v@.contains(x),
{
    let n = v.len();
    let mut k: usize = 0;
    while k < n
        invariant
            n == v@.len(),
            0 <= k <= n,
            forall|m: int| 0 <= m < k ==> v@[m] != x,
        decreases n - k,
    {
        if v[k] == x {
            return true;
        }
        k = k + 1;
    }
    false
}

/// Removes the first occurrence of `x` from `v`, if there is one.
fn vec_remove_first(v: &mut Vec<usize>, x: usize)
    ensures
        final(v)@ == remove_first(old(v)@, x),
{
    let n = v.len();
    let mut k: usize = 0;
    while k < n && v[k] != x
        invariant
            n == v@.len(),
            0 <= k <= n,
            forall|m: int| 0 <= m < k ==> v@[m] != x,
        decreases n - k,
    {
        k = k + 1;
    }
    proof {
        lemma_first_index(v@, x, 0, k as int);
    }
    if k < n {
        v.remove(k);
    }
}

proof fn lemma_count_all(s: Seq<VoiceInfo>, p: spec_fn(VoiceInfo) -> bool, n: int)
    requires
        0 <= n <= s.len(),
        forall|v: VoiceInfo| #[trigger] p(v),
    ensures
        count_where(s, p, n) == n,
    decreases n,
{
    if n > 0 {
        lemma_count_all(s, p, n - 1);
        assert(p(s[n - 1]));
    }
}

proof fn lemma_count_remove_range(s: Seq<VoiceInfo>, p: spec_fn(VoiceInfo) -> bool, a: int, b: int)
    requires
        0 <= a <= b <= s.len(),
    ensures
        count_where(s.subrange(0, a) + s.subrange(b, s.len() as int), p, s.len() - (b - a)) <= count_where(
            s,
            p,
            s.len() as int,
        ),
{
    let x = s.subrange(0, a);
    let y = s.subrange(a, b);
    let z = s.subrange(b, s.len() as int);
    assert(s =~= (x + y) + z);
    lemma_count_append(x + y, z, p, z.len() as int);
    lemma_count_append(x, y, p, y.len() as int);
    lemma_count_append(x, z, p, z.len() as int);
}

/// The voices of a single key, grouped by the note event that spawned
/// them, together with the damper (sustain pedal) state.
pub struct VoiceBuffer<T> {
    options: ChannelInitOptions,
    id_counter: usize,
    buffer: Vec<GroupVoice<T>>,
    damper_held: bool,
    held_by_damper: Vec<usize>,
}

impl<T> View for VoiceBuffer<T> {
    type V = Seq<VoiceInfo>;

    closed spec fn view(&self) -> Seq<VoiceInfo> {
        infos(self.buffer@)
    }
}

impl<T> VoiceBuffer<T> {
    /// The voices themselves, in buffer order.
    pub closed spec fn voices(&self) -> Seq<GroupVoice<T>> {
        self.buffer@
    }

    /// The ids of the voice groups whose release is held back by the damper.
    pub closed spec fn held(&self) -> Seq<usize> {
        self.held_by_damper@
    }

    /// The id given to the last group of voices that was pushed.
    pub closed spec fn spec_id_counter(&self) -> usize {
        self.id_counter
    }

    pub closed spec fn spec_damper_held(&self) -> bool {
        self.damper_held
    }

    pub closed spec fn spec_options(&self) -> ChannelInitOptions {
        self.options
    }

    /// The buffer is consistent: every voice belongs to a group (ids start at 1),
    /// velocities are below 255, a voice whose id is above the counter is killed,
    /// and no voice is killed unless fade-out killing is enabled.
    pub closed spec fn wf(&self) -> bool {
        &&& forall|j: int| 0 <= j < self.buffer@.len() ==> #[trigger] self.buffer@[j].id != 0
        &&& forall|j: int| 0 <= j < self.buffer@.len() ==> #[trigger] self.buffer@[j].voice.spec_velocity() < 255
        &&& forall|j: int|
            0 <= j < self.buffer@.len() && #[trigger] self.buffer@[j].id > self.id_counter
                ==> self.buffer@[j].voice.spec_killed()
        &&& !self.options.fade_out_killing ==> forall|j: int|
            0 <= j < self.buffer@.len() ==> !#[trigger] self.buffer@[j].voice.spec_killed()
    }

    /// The view is the information of each voice, in buffer order.
    pub proof fn lemma_view_voices(&self)
        ensures
            self@ == infos(self.voices()),
    {
    }

    proof fn lemma_view(&self)
        ensures
            self@.len() == self.buffer@.len(),
            forall|j: int| 0 <= j < self@.len() ==> #[trigger] self@[j] == self.buffer@[j].info(),
    {
    }

    /// Creates an empty voice buffer.
    pub fn new(options: ChannelInitOptions) -> (r: Self)
        ensures
            r.wf(),
            r@ == Seq::<VoiceInfo>::empty(),
            r.held() == Seq::<usize>::empty(),
            r.spec_id_counter() == 0,
            !r.spec_damper_held(),
            r.spec_options() == options,
    {
        let r = VoiceBuffer {
            options,
            id_counter: 0,
            buffer: Vec::new(),
            damper_held: false,
            held_by_damper: Vec::new(),
        };
        assert(r@ =~= Seq::<VoiceInfo>::empty());
        r
    }
}

/// The voices `voices`, pushed as one group with the given id.
pub open spec fn group_infos<T>(voices: Seq<VoiceBase<T>>, id: usize) -> Seq<VoiceInfo> {
    voices.map_values(
        |v: VoiceBase<T>|
            VoiceInfo {
                id: id,
                velocity: v.spec_velocity(),
                releasing: v.spec_releasing(),
                killed: v.spec_killed(),
            },
    )
}

/// The voice count that the voice limit applies to.
pub open spec fn limit_measure(s: Seq<VoiceInfo>, fade: bool) -> nat {
    if fade {
        active_count(s)
    } else {
        s.len()
    }
}

/// The voices of group `x` that the voice limit applies to.
pub open spec fn group_measure(s: Seq<VoiceInfo>, fade: bool, x: usize) -> nat {
    if fade {
        count_where(s, pred_active_in(x), s.len() as int)
    } else {
        count_where(s, pred_in(x), s.len() as int)
    }
}

/// While the limit is exceeded and group `x` alone stays within it, popping
/// the quietest group other than `x` brings the count down.
proof fn lemma_pop_progress(s: Seq<VoiceInfo>, x: usize, fade: bool, max: usize)
    requires
        over_limit(s, fade, max),
        group_measure(s, fade, x) <= max,
        forall|j: int| 0 <= j < s.len() ==> #[trigger] s[j].id != 0 && s[j].velocity < 255,
        !fade ==> forall|j: int| 0 <= j < s.len() ==> !#[trigger] s[j].killed,
    ensures
        limit_measure(pop_infos(s, x, fade), fade) < limit_measure(s, fade),
        group_measure(pop_infos(s, x, fade), fade, x) <= group_measure(s, fade, x),
        limit_measure(s, fade) <= s.len(),
{
    let n = s.len() as int;
    let all = pred_all();
    let same = pred_in(x);
    let other = pred_other(x);
    let act = pred_active();
    let act_same = pred_active_in(x);
    let act_other = pred_active_other(x);
    lemma_count_bounds(s, act, n);
    if fade {
        lemma_count_split(s, act, act_same, act_other, n);
        lemma_count_bounds(s, act_other, n);
        let j = choose|j: int| 0 <= j < n && act_other(s[j]);
        assert(!is_skipped(s[j], x));
    } else {
        lemma_count_all(s, all, n);
        lemma_count_split(s, all, same, other, n);
        lemma_count_bounds(s, other, n);
        let j = choose|j: int| 0 <= j < n && other(s[j]);
        assert(!is_skipped(s[j], x));
    }
    lemma_scan_bounds(s, x, n);
    let (_q, qi, _qid, c) = quietest_group(s, x);
    assert(c > 0);
    let t = pop_infos(s, x, fade);
    if fade {
        assert(t.len() == s.len());
        assert(act(s[qi]) && !act(t[qi]));
        lemma_count_mono(s, t, act, n);
        lemma_count_mono(s, t, act_same, n);
    } else {
        lemma_count_remove_range(s, same, qi, qi + c);
    }
}

/// Whether the generator of a voice has not ended.
pub open spec fn unended<T: VoiceGeneratorBase>() -> spec_fn(GroupVoice<T>) -> bool {
    |g: GroupVoice<T>| !g.voice.spec_generator().spec_ended()
}

/// A voice after a release of type `rel` was signalled to it.
pub open spec fn signalled<T: VoiceGeneratorBase>(g: GroupVoice<T>, rel: ReleaseType) -> GroupVoice<T> {
    GroupVoice { id: g.id, voice: g.voice.spec_signalled(rel) }
}

/// A released voice keeps its group and velocity and is releasing (and
/// killed, for a kill).
pub proof fn lemma_signalled_info<T: VoiceGeneratorBase>(g: GroupVoice<T>, rel: ReleaseType)
    ensures
        signalled(g, rel).info() == released_info(g.info(), rel),
{
    g.voice.lemma_signalled(rel);
}

/// The voices `voices` as one group with id `id`.
pub open spec fn new_group<T>(voices: Seq<VoiceBase<T>>, id: usize) -> Seq<GroupVoice<T>> {
    voices.map_values(|v: VoiceBase<T>| GroupVoice { id, voice: v })
}

/// The voices after the quietest group (other than `ignored`) was removed,
/// or, with fade-out killing, killed (see `pop_infos`).
pub open spec fn pop_voices<T: VoiceGeneratorBase>(v: Seq<GroupVoice<T>>, ignored: usize, fade: bool) -> Seq<
    GroupVoice<T>,
> {
    let (_q, qi, _qid, c) = quietest_group(infos(v), ignored);
    if c == 0 {
        v
    } else if fade {
        Seq::new(v.len(), |j: int| if qi <= j < qi + c { signalled(v[j], ReleaseType::Kill) } else { v[j] })
    } else {
        v.subrange(0, qi) + v.subrange(qi + c, v.len() as int)
    }
}

/// Popping quietest groups while the limit is exceeded, at most `fuel`
/// times (see `trimmed`).
pub open spec fn trimmed_voices<T: VoiceGeneratorBase>(
    v: Seq<GroupVoice<T>>,
    ignored: usize,
    fade: bool,
    max: usize,
    fuel: nat,
) -> Seq<GroupVoice<T>>
    decreases fuel,
{
    if fuel == 0 || !over_limit(infos(v), fade, max) {
        v
    } else {
        trimmed_voices(pop_voices(v, ignored, fade), ignored, fade, max, (fuel - 1) as nat)
    }
}

/// The voices after `voices` were pushed onto `v` as group `id` under the
/// voice limit `max`, as `VoiceBuffer::push_voices` does it.
pub open spec fn pushed_voices<T: VoiceGeneratorBase>(
    v: Seq<GroupVoice<T>>,
    voices: Seq<VoiceBase<T>>,
    id: usize,
    fade: bool,
    max: Option<usize>,
) -> Seq<GroupVoice<T>> {
    let pushed = v + new_group(voices, id);
    match max {
        None => pushed,
        Some(m) => if voices.len() > m {
            pop_voices(pushed, id, fade)
        } else {
            trimmed_voices(pushed, id, fade, m, pushed.len())
        },
    }
}

/// The voices after the next note-off without the damper (see
/// `release_next_infos`).
pub open spec fn release_next_voices<T: VoiceGeneratorBase>(v: Seq<GroupVoice<T>>) -> Seq<GroupVoice<T>> {
    let s = infos(v);
    let f = first_unreleased_from(s, 0);
    if f >= s.len() {
        v
    } else {
        let g = group_run_end(s, s[f].id, f + 1);
        Seq::new(
            v.len(),
            |j: int|
                if f <= j < g && !s[j].releasing {
                    signalled(v[j], ReleaseType::Standard)
                } else {
                    v[j]
                },
        )
    }
}

/// For each voice, whether its generator has not ended.
pub open spec fn unended_flags<T: VoiceGeneratorBase>(s: Seq<GroupVoice<T>>) -> Seq<bool> {
    Seq::new(s.len(), |j: int| !s[j].voice.spec_generator().spec_ended())
}

/// Keeping the voices whose generator has not ended is filtering them.
pub proof fn lemma_select_unended<T: VoiceGeneratorBase>(s: Seq<GroupVoice<T>>)
    ensures
        select(s, unended_flags(s)) == s.filter(unended()),
    decreases s.len(),
{
    reveal(Seq::filter);
    if s.len() == 0 {
        assert(s.filter(unended()) =~= Seq::<GroupVoice<T>>::empty());
    } else {
        let d = s.drop_last();
        lemma_select_unended(d);
        let flags = unended_flags(s);
        assert(flags.drop_last() =~= unended_flags(d));
        let f = select(d, unended_flags(d));
        assert(select(s, flags) == select(d, flags.drop_last()) + if flags.last() {
            seq![s.last()]
        } else {
            Seq::<GroupVoice<T>>::empty()
        });
        assert(flags.last() == unended::<T>()(s.last()));
        assert(f == d.filter(unended()));
        if flags.last() {
            assert(f + seq![s.last()] =~= f.push(s.last()));
        } else {
            assert(f + Seq::<GroupVoice<T>>::empty() =~= f);
        }
    }
}

/// Index of the first voice at or after `i` that is not releasing (`s.len()` if none).
pub open spec fn first_unreleased_from(s: Seq<VoiceInfo>, i: int) -> int
    decreases s.len() - i,
{
    if i < 0 || i >= s.len() {
        s.len() as int
    } else if !s[i].releasing {
        i
    } else {
        first_unreleased_from(s, i + 1)
    }
}

/// Index of the first voice at or after `i` that is not releasing and does not
/// belong to group `id` (`s.len()` if none).
pub open spec fn group_run_end(s: Seq<VoiceInfo>, id: usize, i: int) -> int
    decreases s.len() - i,
{
    if i < 0 || i >= s.len() {
        s.len() as int
    } else if !s[i].releasing && s[i].id != id {
        i
    } else {
        group_run_end(s, id, i + 1)
    }
}

/// Index of the first voice at or after `i` that is not releasing and whose
/// group is not held by the damper (`s.len()` if none).
pub open spec fn first_unheld_from(s: Seq<VoiceInfo>, held: Seq<usize>, i: int) -> int
    decreases s.len() - i,
{
    if i < 0 || i >= s.len() {
        s.len() as int
    } else if !s[i].releasing && !held.contains(s[i].id) {
        i
    } else {
        first_unheld_from(s, held, i + 1)
    }
}

/// The voices after the next note-off without the damper: the first voice
/// that is not releasing, and the voices of its group that follow it up to
/// the next unreleased voice of another group, are released.
pub open spec fn release_next_infos(s: Seq<VoiceInfo>) -> Seq<VoiceInfo> {
    let f = first_unreleased_from(s, 0);
    if f >= s.len() {
        s
    } else {
        let g = group_run_end(s, s[f].id, f + 1);
        Seq::new(
            s.len(),
            |j: int|
                if f <= j < g && !s[j].releasing {
                    released_info(s[j], ReleaseType::Standard)
                } else {
                    s[j]
                },
        )
    }
}

/// The subsequence of `s` of the elements whose flag in `keep` is set.
pub open spec fn select<A>(s: Seq<A>, keep: Seq<bool>) -> Seq<A>
    decreases s.len(),
{
    if s.len() == 0 {
        Seq::empty()
    } else {
        select(s.drop_last(), keep.drop_last()) + if keep.last() {
            seq![s.last()]
        } else {
            Seq::empty()
        }
    }
}

proof fn lemma_first_unreleased(s: Seq<VoiceInfo>, i: int, k: int)
    requires
        0 <= i <= k <= s.len(),
        forall|m: int| i <= m < k ==> s[m].releasing,
        k == s.len() || !s[k].releasing,
    ensures
        first_unreleased_from(s, i) == k,
    decreases k - i,
{
    if i < k {
        lemma_first_unreleased(s, i + 1, k);
    }
}

proof fn lemma_group_run_end(s: Seq<VoiceInfo>, id: usize, i: int, k: int)
    requires
        0 <= i <= k <= s.len(),
        forall|m: int| i <= m < k ==> (s[m].releasing || s[m].id == id),
        k == s.len() || (!s[k].releasing && s[k].id != id),
    ensures
        group_run_end(s, id, i) == k,
    decreases k - i,
{
    if i < k {
        lemma_group_run_end(s, id, i + 1, k);
    }
}

proof fn lemma_first_unheld(s: Seq<VoiceInfo>, held: Seq<usize>, i: int, k: int)
    requires
        0 <= i <= k <= s.len(),
        forall|m: int| i <= m < k ==> (s[m].releasing || held.contains(s[m].id)),
        k == s.len() || (!s[k].releasing && !held.contains(s[k].id)),
    ensures
        first_unheld_from(s, held, i) == k,
    decreases k - i,
{
    if i < k {
        lemma_first_unheld(s, held, i + 1, k);
    }
}

proof fn lemma_trimmed_done(s: Seq<VoiceInfo>, held: Seq<usize>, x: usize, fade: bool, max: usize, fuel: nat)
    requires
        !over_limit(s, fade, max),
    ensures
        trimmed(s, held, x, fade, max, fuel) == (s, held),
    decreases fuel,
{
}

impl<T: VoiceGeneratorBase> VoiceBuffer<T> {
    /// Pops the quietest voice group whose id is not `ignored_id`: the voices
    /// are removed, or with fade-out killing, killed. The group is also
    /// dropped from the damper-held list.
    fn pop_quietest_voice_group(&mut self, ignored_id: usize)
        requires
            old(self).wf(),
        ensures
            final(self).wf(),
            final(self)@ == pop_infos(old(self)@, ignored_id, old(self).spec_options().fade_out_killing),
            final(self).held() == pop_held(old(self).held(), old(self)@, ignored_id),
            final(self).spec_id_counter() == old(self).spec_id_counter(),
            final(self).spec_damper_held() == old(self).spec_damper_held(),
            final(self).spec_options() == old(self).spec_options(),
            final(self).voices() == pop_voices(old(self).voices(), ignored_id, old(self).spec_options().fade_out_killing),
    {
        let ghost s0 = self@;
        let ghost v0 = self.buffer@;
        proof {
            self.lemma_view();
            assert forall|j: int| #![trigger s0[j]] 0 <= j < s0.len() implies s0[j].id != 0 && s0[j].velocity < 255 by {
                assert(s0[j] == v0[j].info());
            }
            lemma_scan_bounds(s0, ignored_id, s0.len() as int);
        }
        let n = self.buffer.len();
        let mut quietest: u8 = 255;
        let mut quietest_index: usize = 0;
        let mut quietest_id: usize = 0;
        let mut count: usize = 0;
        let mut i: usize = 0;
        while i < n
            invariant
                n == self.buffer@.len(),
                self.buffer@ == v0,
                s0 == infos(v0),
                s0.len() == n,
                0 <= i <= n,
                (quietest, quietest_index as int, quietest_id, count as int) == quietest_scan(s0, ignored_id, i as int),
                forall|j: int| 0 <= j < n ==> #[trigger] s0[j] == v0[j].info(),
                forall|j: int| #![trigger s0[j]] 0 <= j < n ==> s0[j].id != 0 && s0[j].velocity < 255,
            decreases n - i,
        {
            proof {
                lemma_scan_bounds(s0, ignored_id, i as int);
            }
            let voice = &self.buffer[i];
            if voice.id == ignored_id || voice.voice.is_killed() {
            } else {
                let vel = voice.voice.velocity();
                if quietest_id == voice.id {
                    count = count + 1;
                } else if vel < quietest || i == 0 {
                    quietest = vel;
                    quietest_index = i;
                    quietest_id = voice.id;
                    count = 1;
                }
            }
            i = i + 1;
        }
        if count > 0 {
            if self.options.fade_out_killing {
                let end = quietest_index + count;
                let mut j = quietest_index;
                while j < end
                    invariant
                        n == self.buffer@.len(),
                        quietest_index <= j <= end <= n,
                        s0 == infos(v0),
                        forall|m: int| 0 <= m < n ==> #[trigger] s0[m] == v0[m].info(),
                        forall|m: int|
                            0 <= m < n && !(quietest_index <= m < j) ==> #[trigger] self.buffer@[m] == v0[m],
                        forall|m: int|
                            quietest_index <= m < j ==> #[trigger] self.buffer@[m].info() == released_info(
                                s0[m],
                                ReleaseType::Kill,
                            ),
                        forall|m: int|
                            quietest_index <= m < j ==> #[trigger] self.buffer@[m] == signalled(v0[m], ReleaseType::Kill),
                        self.options == old(self).options,
                        self.id_counter == old(self).id_counter,
                        self.held_by_damper == old(self).held_by_damper,
                        self.damper_held == old(self).damper_held,
                    decreases end - j,
                {
                    self.buffer[j].voice.signal_release(ReleaseType::Kill);
                    j = j + 1;
                }
                assert(self@ =~= pop_infos(s0, ignored_id, true));
                assert(self.buffer@ =~= pop_voices(v0, ignored_id, true));
            } else {
                let mut k: usize = 0;
                while k < count
                    invariant
                        0 <= k <= count,
                        quietest_index + count <= n,
                        n == v0.len(),
                        self.buffer@.len() == n - k,
                        self.buffer@ == v0.subrange(0, quietest_index as int) + v0.subrange(
                            quietest_index + k,
                            n as int,
                        ),
                        self.options == old(self).options,
                        self.id_counter == old(self).id_counter,
                        self.held_by_damper == old(self).held_by_damper,
                        self.damper_held == old(self).damper_held,
                    decreases count - k,
                {
                    let ghost before = self.buffer@;
                    self.buffer.remove(quietest_index);
                    k = k + 1;
                    assert(before.subrange(quietest_index + 1, before.len() as int) =~= v0.subrange(
                        quietest_index + k,
                        n as int,
                    ));
                    assert(self.buffer@ =~= v0.subrange(0, quietest_index as int) + v0.subrange(
                        quietest_index + k,
                        n as int,
                    ));
                }
                assert(self@ =~= pop_infos(s0, ignored_id, false));
                assert(self.buffer@ =~= pop_voices(v0, ignored_id, false));
            }
            vec_remove_first(&mut self.held_by_damper, quietest_id);
        } else {
            assert(v0.subrange(0, 0) + v0.subrange(0, n as int) =~= v0);
            assert(self.buffer@ == pop_voices(v0, ignored_id, self.options.fade_out_killing));
        }
        proof {
            let v1 = self.buffer@;
            if !self.options.fade_out_killing {
                assert forall|j: int| 0 <= j < v1.len() implies #[trigger] v1[j] == v0[if j < quietest_index {
                    j
                } else {
                    j + count
                }] by {
                    if count > 0 {
                        if j < quietest_index {
                        } else {
                        }
                    }
                }
            } else {
                assert forall|j: int| 0 <= j < v1.len() implies #[trigger] v1[j].info().id == v0[j].info().id
                    && v1[j].info().velocity == v0[j].info().velocity && (v0[j].info().killed
                    ==> v1[j].info().killed) by {
                    if count > 0 {
                        assert(self@[j] == v1[j].info());
                    }
                }
            }
            assert forall|j: int| #![trigger v1[j]] 0 <= j < v1.len() implies v1[j].id != 0 && v1[j].voice.spec_velocity()
                < 255 && (v1[j].id > self.id_counter ==> v1[j].voice.spec_killed()) && (
            !self.options.fade_out_killing ==> !v1[j].voice.spec_killed()) by {
                let j0 = if !self.options.fade_out_killing && count > 0 && j >= quietest_index {
                    j + count
                } else {
                    j
                };
                if !self.options.fade_out_killing {
                    assert(v1[j] == v0[if j < quietest_index {
                        j
                    } else {
                        j + count
                    }]);
                } else {
                    assert(v1[j].info().id == v0[j].info().id);
                }
                assert(v0[j0].id != 0);
                assert(v0[j0].voice.spec_velocity() < 255);
                assert(v0[j0].id > self.id_counter ==> v0[j0].voice.spec_killed());
                assert(!self.options.fade_out_killing ==> !v0[j0].voice.spec_killed());
            }
            assert(self.wf());
        }
    }
}

impl<T: VoiceGeneratorBase> VoiceBuffer<T> {
    fn get_id(&mut self) -> (r: usize)
        requires
            old(self).wf(),
            old(self).spec_id_counter() < usize::MAX,
        ensures
            final(self).wf(),
            r == old(self).spec_id_counter() + 1,
            final(self).spec_id_counter() == r,
            final(self).voices() == old(self).voices(),
            final(self)@ == old(self)@,
            final(self).held() == old(self).held(),
            final(self).spec_damper_held() == old(self).spec_damper_held(),
            final(self).spec_options() == old(self).spec_options(),
    {
        self.id_counter = self.id_counter + 1;
        self.id_counter
    }

    /// Number of voices that are not killed.
    fn get_active_count(&self) -> (r: usize)
        ensures
            r == active_count(self@),
    {
        proof {
            self.lemma_view();
        }
        let n = self.buffer.len();
        let mut active: usize = 0;
        let mut i: usize = 0;
        while i < n
            invariant
                n == self@.len(),
                0 <= i <= n,
                active == count_where(self@, pred_active(), i as int),
                forall|j: int| 0 <= j < n ==> #[trigger] self@[j] == self.buffer@[j].info(),
            decreases n - i,
        {
            proof {
                lemma_count_bounds(self@, pred_active(), i as int);
            }
            if !self.buffer[i].voice.is_killed() {
                active = active + 1;
            }
            i = i + 1;
        }
        active
    }

    /// Whether the voice limit `max` is exceeded.
    fn is_over_limit(&self, max: usize) -> (r: bool)
        ensures
            r == over_limit(self@, self.spec_options().fade_out_killing, max),
    {
        proof {
            self.lemma_view();
        }
        if self.options.fade_out_killing {
            self.get_active_count() > max
        } else {
            self.buffer.len() > max
        }
    }

    /// Releases the next voice and the voices of its group that follow it.
    /// Without the damper: the first voice that is not releasing is found,
    /// and it and the following voices of the same group (up to the next
    /// unreleased voice of another group) get a standard release; its
    /// velocity is returned. With the damper held: the group of the first
    /// voice that is neither releasing nor held is added to the held list,
    /// and nothing is returned.
    pub fn release_next_voice(&mut self) -> (r: Option<u8>)
        requires
            old(self).wf(),
        ensures
            final(self).wf(),
            final(self).spec_id_counter() == old(self).spec_id_counter(),
            final(self).spec_damper_held() == old(self).spec_damper_held(),
            final(self).spec_options() == old(self).spec_options(),
            ({
                let s = old(self)@;
                if !old(self).spec_damper_held() {
                    let f = first_unreleased_from(s, 0);
                    &&& final(self)@ == release_next_infos(s)
                    &&& final(self).voices() == release_next_voices(old(self).voices())
                    &&& final(self).held() == old(self).held()
                    &&& r == if f < s.len() {
                        Some(s[f].velocity)
                    } else {
                        None::<u8>
                    }
                } else {
                    let k = first_unheld_from(s, old(self).held(), 0);
                    &&& r is None
                    &&& final(self)@ == s
                    &&& final(self).voices() == old(self).voices()
                    &&& final(self).held() == if k < s.len() {
                        old(self).held().push(s[k].id)
                    } else {
                        old(self).held()
                    }
                }
            }),
    {
        let ghost s0 = self@;
        let ghost v0 = self.buffer@;
        proof {
            self.lemma_view();
        }
        let n = self.buffer.len();
        if !self.damper_held {
            let mut id: Option<usize> = None;
            let mut vel: Option<u8> = None;
            let mut i: usize = 0;
            let mut stop = false;
            while i < n && !stop
                invariant
                    n == s0.len(),
                    n == self.buffer@.len(),
                    s0 == infos(v0),
                    forall|m: int| 0 <= m < n ==> #[trigger] s0[m] == v0[m].info(),
                    0 <= i <= n,
                    id is None ==> (forall|m: int| 0 <= m < i ==> s0[m].releasing) && !stop && vel is None,
                    id matches Some(x) ==> ({
                        let f = first_unreleased_from(s0, 0);
                        &&& 0 <= f < i
                        &&& x == s0[f].id
                        &&& vel == Some(s0[f].velocity)
                        &&& forall|m: int| f < m < i ==> (s0[m].releasing || s0[m].id == x)
                        &&& stop ==> (i < n && !s0[i as int].releasing && s0[i as int].id != x)
                    }),
                    forall|m: int|
                        #![trigger self.buffer@[m]]
                        0 <= m < i ==> self.buffer@[m].info() == if id is Some && first_unreleased_from(s0, 0)
                            <= m && !s0[m].releasing {
                            released_info(s0[m], ReleaseType::Standard)
                        } else {
                            s0[m]
                        },
                    forall|m: int|
                        #![trigger self.buffer@[m]]
                        0 <= m < i ==> self.buffer@[m] == if id is Some && first_unreleased_from(s0, 0) <= m
                            && !s0[m].releasing {
                            signalled(v0[m], ReleaseType::Standard)
                        } else {
                            v0[m]
                        },
                    forall|m: int| #![trigger self.buffer@[m]] i <= m < n ==> self.buffer@[m] == v0[m],
                    self.options == old(self).options,
                    self.id_counter == old(self).id_counter,
                    self.held_by_damper == old(self).held_by_damper,
                    self.damper_held == old(self).damper_held,
                decreases n - i, if stop { 0int } else { 1int },
            {
                if self.buffer[i].voice.is_releasing() {
                    i = i + 1;
                } else {
                    if id.is_none() {
                        proof {
                            lemma_first_unreleased(s0, 0, i as int);
                        }
                        id = Some(self.buffer[i].id);
                        vel = Some(self.buffer[i].voice.velocity());
                    }
                    if id != Some(self.buffer[i].id) {
                        stop = true;
                    } else {
                        self.buffer[i].voice.signal_release(ReleaseType::Standard);
                        i = i + 1;
                    }
                }
            }
            proof {
                let t = self@;
                self.lemma_view();
                if id is None {
                    lemma_first_unreleased(s0, 0, n as int);
                    assert(t =~= s0);
                    assert(self.buffer@ =~= v0);
                } else {
                    let f = first_unreleased_from(s0, 0);
                    lemma_group_run_end(s0, s0[f].id, f + 1, i as int);
                    assert(t =~= release_next_infos(s0));
                    assert(self.buffer@ =~= release_next_voices(v0));
                }
                let b = self.buffer@;
                assert forall|j: int| #![trigger b[j]] 0 <= j < b.len() implies b[j].id != 0 && b[j].voice.spec_velocity()
                    < 255 && (b[j].id > self.id_counter ==> b[j].voice.spec_killed()) && (
                !self.options.fade_out_killing ==> !b[j].voice.spec_killed()) by {
                    assert(b[j].info().id == v0[j].info().id);
                    assert(b[j].info().killed == v0[j].info().killed);
                }
            }
            vel
        } else {
            let mut i: usize = 0;
            let mut found = false;
            while i < n && !found
                invariant
                    n == s0.len(),
                    n == self.buffer@.len(),
                    s0 == infos(v0),
                    self.buffer@ == v0,
                    forall|m: int| 0 <= m < n ==> #[trigger] s0[m] == v0[m].info(),
                    0 <= i <= n,
                    forall|m: int| 0 <= m < i ==> (s0[m].releasing || old(self).held_by_damper@.contains(s0[m].id)),
                    !found ==> self.held_by_damper == old(self).held_by_damper,
                    found ==> (i < n && !s0[i as int].releasing && !old(self).held_by_damper@.contains(
                        s0[i as int].id,
                    ) && self.held_by_damper@ == old(self).held_by_damper@.push(s0[i as int].id)),
                    self.options == old(self).options,
                    self.id_counter == old(self).id_counter,
                    self.damper_held == old(self).damper_held,
                decreases n - i, if found { 0int } else { 1int },
            {
                let vid = self.buffer[i].id;
                if !self.buffer[i].voice.is_releasing() && !vec_contains(&self.held_by_damper, vid) {
                    self.held_by_damper.push(vid);
                    found = true;
                } else {
                    i = i + 1;
                }
            }
            proof {
                lemma_first_unheld(s0, old(self).held_by_damper@, 0, i as int);
            }
            None
        }
    }

    /// Sets the damper (sustain pedal). Lifting a held damper releases every
    /// voice whose group is held, and empties the held list.
    pub fn set_damper(&mut self, damper: bool)
        requires
            old(self).wf(),
        ensures
            final(self).wf(),
            final(self).spec_id_counter() == old(self).spec_id_counter(),
            final(self).spec_options() == old(self).spec_options(),
            final(self).spec_damper_held() == damper,
            ({
                let s = old(self)@;
                if old(self).spec_damper_held() && !damper {
                    &&& final(self)@ == Seq::new(
                        s.len(),
                        |j: int|
                            if old(self).held().contains(s[j].id) {
                                released_info(s[j], ReleaseType::Standard)
                            } else {
                                s[j]
                            },
                    )
                    &&& final(self).voices() == Seq::new(
                        old(self).voices().len(),
                        |j: int|
                            if old(self).held().contains(old(self).voices()[j].id) {
                                signalled(old(self).voices()[j], ReleaseType::Standard)
                            } else {
                                old(self).voices()[j]
                            },
                    )
                    &&& final(self).held() == Seq::<usize>::empty()
                } else {
                    &&& final(self)@ == s
                    &&& final(self).voices() == old(self).voices()
                    &&& final(self).held() == old(self).held()
                }
            }),
    {
        let ghost s0 = self@;
        let ghost v0 = self.buffer@;
        proof {
            self.lemma_view();
        }
        if self.damper_held && !damper {
            let n = self.buffer.len();
            let mut i: usize = 0;
            while i < n
                invariant
                    n == s0.len(),
                    n == self.buffer@.len(),
                    s0 == infos(v0),
                    forall|m: int| 0 <= m < n ==> #[trigger] s0[m] == v0[m].info(),
                    0 <= i <= n,
                    forall|m: int|
                        #![trigger self.buffer@[m]]
                        0 <= m < i ==> self.buffer@[m].info() == if self.held_by_damper@.contains(s0[m].id) {
                            released_info(s0[m], ReleaseType::Standard)
                        } else {
                            s0[m]
                        },
                    forall|m: int|
                        #![trigger self.buffer@[m]]
                        0 <= m < i ==> self.buffer@[m] == if self.held_by_damper@.contains(v0[m].id) {
                            signalled(v0[m], ReleaseType::Standard)
                        } else {
                            v0[m]
                        },
                    forall|m: int| #![trigger self.buffer@[m]] i <= m < n ==> self.buffer@[m] == v0[m],
                    self.options == old(self).options,
                    self.id_counter == old(self).id_counter,
                    self.held_by_damper == old(self).held_by_damper,
                    self.damper_held == old(self).damper_held,
                decreases n - i,
            {
                let vid = self.buffer[i].id;
                if vec_contains(&self.held_by_damper, vid) {
                    self.buffer[i].voice.signal_release(ReleaseType::Standard);
                }
                i = i + 1;
            }
            proof {
                assert(self.buffer@ =~= Seq::new(
                    v0.len(),
                    |j: int|
                        if old(self).held().contains(v0[j].id) {
                            signalled(v0[j], ReleaseType::Standard)
                        } else {
                            v0[j]
                        },
                ));
            }
            self.held_by_damper.clear();
            proof {
                self.lemma_view();
                let b = self.buffer@;
                assert forall|j: int| #![trigger b[j]] 0 <= j < b.len() implies b[j].id != 0 && b[j].voice.spec_velocity()
                    < 255 && (b[j].id > self.id_counter ==> b[j].voice.spec_killed()) && (
                !self.options.fade_out_killing ==> !b[j].voice.spec_killed()) by {
                    assert(b[j].info().id == v0[j].info().id);
                    assert(b[j].info().killed == v0[j].info().killed);
                }
            }
        }
        self.damper_held = damper;
        proof {
            self.lemma_view();
        }
    }

    /// Kills every voice: with fade-out killing they get a kill release and
    /// the group id counter starts over, otherwise they are removed.
    pub fn kill_all_voices(&mut self)
        requires
            old(self).wf(),
        ensures
            final(self).wf(),
            final(self).spec_options() == old(self).spec_options(),
            final(self).spec_damper_held() == old(self).spec_damper_held(),
            final(self).held() == old(self).held(),
            if old(self).spec_options().fade_out_killing {
                &&& final(self)@ == Seq::new(
                    old(self)@.len(),
                    |j: int| released_info(old(self)@[j], ReleaseType::Kill),
                )
                &&& final(self).voices() == Seq::new(
                    old(self).voices().len(),
                    |j: int| signalled(old(self).voices()[j], ReleaseType::Kill),
                )
                &&& final(self).spec_id_counter() == 0
            } else {
                &&& final(self)@ == Seq::<VoiceInfo>::empty()
                &&& final(self).voices() == Seq::<GroupVoice<T>>::empty()
                &&& final(self).spec_id_counter() == old(self).spec_id_counter()
            },
    {
        let ghost s0 = self@;
        let ghost v0 = self.buffer@;
        proof {
            self.lemma_view();
        }
        if self.options.fade_out_killing {
            let n = self.buffer.len();
            let mut i: usize = 0;
            while i < n
                invariant
                    n == s0.len(),
                    n == self.buffer@.len(),
                    s0 == infos(v0),
                    forall|m: int| 0 <= m < n ==> #[trigger] s0[m] == v0[m].info(),
                    0 <= i <= n,
                    forall|m: int|
                        #![trigger self.buffer@[m]]
                        0 <= m < i ==> self.buffer@[m].info() == released_info(s0[m], ReleaseType::Kill),
                    forall|m: int| #![trigger self.buffer@[m]] 0 <= m < i ==> self.buffer@[m] == signalled(v0[m], ReleaseType::Kill),
                    forall|m: int| #![trigger self.buffer@[m]] i <= m < n ==> self.buffer@[m] == v0[m],
                    self.options == old(self).options,
                    self.id_counter == old(self).id_counter,
                    self.held_by_damper == old(self).held_by_damper,
                    self.damper_held == old(self).damper_held,
                decreases n - i,
            {
                self.buffer[i].voice.signal_release(ReleaseType::Kill);
                i = i + 1;
            }
            self.id_counter = 0;
            proof {
                self.lemma_view();
                let b = self.buffer@;
                assert forall|j: int| #![trigger b[j]] 0 <= j < b.len() implies b[j].id != 0 && b[j].voice.spec_velocity()
                    < 255 && b[j].voice.spec_killed() by {
                    assert(b[j].info().id == v0[j].info().id);
                    assert(b[j].info().killed);
                }
                assert(self@ =~= Seq::new(s0.len(), |j: int| released_info(s0[j], ReleaseType::Kill)));
                assert(self.buffer@ =~= Seq::new(v0.len(), |j: int| signalled(v0[j], ReleaseType::Kill)));
            }
        } else {
            self.buffer.clear();
            proof {
                assert(self@ =~= Seq::<VoiceInfo>::empty());
                assert(self.buffer@ =~= Seq::<GroupVoice<T>>::empty());
            }
        }
    }

    /// Removes the voices whose generators report that they have ended,
    /// keeping the others in order.
    pub fn remove_ended_voices(&mut self)
        requires
            old(self).wf(),
        ensures
            final(self).wf(),
            final(self).spec_id_counter() == old(self).spec_id_counter(),
            final(self).spec_options() == old(self).spec_options(),
            final(self).spec_damper_held() == old(self).spec_damper_held(),
            final(self).held() == old(self).held(),
            final(self).voices() == old(self).voices().filter(unended()),
    {
        let ghost v0 = self.buffer@;
        let n = self.buffer.len();
        let mut i: usize = 0;
        let mut orig: usize = 0;
        let ghost mut keep: Seq<bool> = Seq::empty();
        while orig < n
            invariant
                n == v0.len(),
                0 <= i <= orig <= n,
                keep.len() == orig,
                forall|j: int| 0 <= j < orig ==> keep[j] == !(#[trigger] v0[j]).voice.spec_generator().spec_ended(),
                self.buffer@ == select(v0.subrange(0, orig as int), keep) + v0.subrange(orig as int, n as int),
                select(v0.subrange(0, orig as int), keep).len() == i,
                self.wf(),
                self.options == old(self).options,
                self.id_counter == old(self).id_counter,
                self.held_by_damper == old(self).held_by_damper,
                self.damper_held == old(self).damper_held,
            decreases n - orig,
        {
            let ghost before = self.buffer@;
            let ghost keep_old = keep;
            let ghost sel = select(v0.subrange(0, orig as int), keep);
            assert(v0.subrange(0, orig + 1).drop_last() =~= v0.subrange(0, orig as int));
            assert(self.buffer@[i as int] == v0[orig as int]);
            if self.buffer[i].voice.ended() {
                self.buffer.remove(i);
                proof {
                    keep = keep.push(false);
                    assert(keep.drop_last() =~= keep_old);
                    assert(select(v0.subrange(0, orig + 1), keep) =~= sel);
                    assert(self.buffer@ =~= sel + v0.subrange(orig + 1, n as int));
                    let b = self.buffer@;
                    assert forall|j: int| #![trigger b[j]] 0 <= j < b.len() implies b[j].id != 0
                        && b[j].voice.spec_velocity() < 255 && (b[j].id > self.id_counter
                        ==> b[j].voice.spec_killed()) && (!self.options.fade_out_killing
                        ==> !b[j].voice.spec_killed()) by {
                        if j < i {
                            assert(before[j] == b[j]);
                        } else {
                            assert(before[j + 1] == b[j]);
                        }
                    }
                }
            } else {
                i = i + 1;
                proof {
                    keep = keep.push(true);
                    assert(keep.drop_last() =~= keep_old);
                    assert(select(v0.subrange(0, orig + 1), keep) =~= sel.push(v0[orig as int]));
                    assert(self.buffer@ =~= sel.push(v0[orig as int]) + v0.subrange(orig + 1, n as int));
                }
            }
            orig = orig + 1;
        }
        proof {
            assert(v0.subrange(0, n as int) =~= v0);
            assert(self.buffer@ =~= select(v0, keep) + v0.subrange(n as int, n as int));
            assert(self.buffer@ =~= select(v0, keep));
            assert(keep =~= unended_flags(v0));
            lemma_select_unended(v0);
            assert(select(old(self).voices(), keep) == self.voices());
        }
    }

    /// Whether the buffer holds any voice.
    pub fn has_voices(&self) -> (r: bool)
        ensures
            r == (self@.len() > 0),
    {
        proof {
            self.lemma_view();
        }
        self.buffer.len() > 0
    }

    /// Number of voices in the buffer.
    /// The number of groups held by the damper.
    pub(crate) fn held_count(&self) -> (r: usize)
        ensures
            r == self.held().len(),
    {
        self.held_by_damper.len()
    }

    pub fn voice_count(&self) -> (r: usize)
        ensures
            r == self@.len(),
    {
        proof {
            self.lemma_view();
        }
        self.buffer.len()
    }

    /// The group counter, whose next value the next pushed group will get.
    pub fn id_counter(&self) -> (r: usize)
        ensures
            r == self.spec_id_counter(),
    {
        self.id_counter
    }

    /// The voice at position `i`.
    pub fn voice_at(&self, i: usize) -> (r: &GroupVoice<T>)
        requires
            i < self@.len(),
        ensures
            *r == self.voices()[i as int],
    {
        proof {
            self.lemma_view();
        }
        &self.buffer[i]
    }

    /// Write access to the generator of the voice at position `i`, to render
    /// it or pass control data to it. Nothing else in the buffer changes.
    pub fn generator_mut(&mut self, i: usize) -> (r: &mut T)
        requires
            old(self).wf(),
            i < old(self)@.len(),
        ensures
            *r == old(self).voices()[i as int].voice.spec_generator(),
            final(self).wf(),
            final(self)@ == old(self)@,
            final(self).voices().len() == old(self).voices().len(),
            forall|j: int|
                0 <= j < old(self).voices().len() && j != i ==> #[trigger] final(self).voices()[j] == old(
                    self,
                ).voices()[j],
            final(self).voices()[i as int].voice.spec_generator() == *final(r),
            final(self).held() == old(self).held(),
            final(self).spec_id_counter() == old(self).spec_id_counter(),
            final(self).spec_options() == old(self).spec_options(),
            final(self).spec_damper_held() == old(self).spec_damper_held(),
    {
        proof {
            self.lemma_view();
        }
        self.buffer[i].voice.generator_mut()
    }

    /// Pushes the voices spawned by one note event as a new group, then
    /// enforces the voice limit `max_voices`: when the new group alone is
    /// larger than the limit, the quietest other group is popped once;
    /// otherwise quietest other groups are popped until the voices (or,
    /// with fade-out killing, the voices not killed) fit within the limit.
    pub fn push_voices(&mut self, voices: Vec<VoiceBase<T>>, max_voices: Option<usize>)
        requires
            old(self).wf(),
            old(self).spec_id_counter() < usize::MAX,
            forall|j: int|
                0 <= j < voices@.len() ==> #[trigger] voices@[j].spec_velocity() < 255 && !voices@[j].spec_killed(),
        ensures
            final(self).wf(),
            final(self).spec_id_counter() == old(self).spec_id_counter() + 1,
            final(self).spec_damper_held() == old(self).spec_damper_held(),
            final(self).spec_options() == old(self).spec_options(),
            final(self).voices() == pushed_voices(
                old(self).voices(),
                voices@,
                (old(self).spec_id_counter() + 1) as usize,
                old(self).spec_options().fade_out_killing,
                max_voices,
            ),
            ({
                let id = (old(self).spec_id_counter() + 1) as usize;
                let fade = old(self).spec_options().fade_out_killing;
                let pushed = old(self)@ + group_infos(voices@, id);
                match max_voices {
                    None => final(self)@ == pushed && final(self).held() == old(self).held(),
                    Some(m) => if voices@.len() > m {
                        final(self)@ == pop_infos(pushed, id, fade) && final(self).held() == pop_held(
                            old(self).held(),
                            pushed,
                            id,
                        )
                    } else {
                        (final(self)@, final(self).held()) == trimmed(
                            pushed,
                            old(self).held(),
                            id,
                            fade,
                            m,
                            pushed.len(),
                        ) && !over_limit(final(self)@, fade, m)
                    },
                }
            }),
    {
        let ghost s_old = self@;
        let ghost v_old = self.buffer@;
        let ghost held_old = self.held();
        let id = self.get_id();
        let len = voices.len();
        let ghost vs = voices@;
        let ghost new_infos = group_infos(vs, id);
        let mut voices = voices;
        let mut k: usize = 0;
        while k < len
            invariant
                0 <= k <= len,
                len == vs.len(),
                voices@ == vs.subrange(k as int, len as int),
                self@ == s_old + new_infos.subrange(0, k as int),
                self.buffer@ == v_old + new_group(vs, id).subrange(0, k as int),
                self.held() == held_old,
                self.spec_id_counter() == id,
                self.spec_damper_held() == old(self).spec_damper_held(),
                self.spec_options() == old(self).spec_options(),
                self.wf(),
                new_infos == group_infos(vs, id),
                id != 0,
                forall|j: int| 0 <= j < vs.len() ==> #[trigger] vs[j].spec_velocity() < 255 && !vs[j].spec_killed(),
            decreases len - k,
        {
            let v = voices.remove(0);
            proof {
                assert(v == vs[k as int]);
                self.lemma_view();
            }
            let ghost prev = self@;
            self.buffer.push(GroupVoice { id, voice: v });
            k = k + 1;
            proof {
                self.lemma_view();
                assert(self@ =~= prev.push(new_infos[k - 1]));
                assert(self@ =~= s_old + new_infos.subrange(0, k as int));
                assert(self.buffer@ =~= v_old + new_group(vs, id).subrange(0, k as int));
                let b = self.buffer@;
                assert(b[b.len() - 1].id == id);
                assert forall|j: int| #![trigger b[j]] 0 <= j < b.len() implies b[j].id != 0 && b[j].voice.spec_velocity() < 255
                    && (b[j].id > self.id_counter ==> b[j].voice.spec_killed()) && (!self.options.fade_out_killing
                    ==> !b[j].voice.spec_killed()) by {
                    if j < b.len() - 1 {
                        assert(b[j] == old(self).buffer@[j] || true);
                    }
                }
            }
        }
        let ghost pushed = self@;
        let ghost pushed_v = self.buffer@;
        proof {
            assert(new_infos.subrange(0, len as int) =~= new_infos);
            assert(pushed == s_old + new_infos);
            assert(new_group(vs, id).subrange(0, len as int) =~= new_group(vs, id));
            assert(pushed_v == v_old + new_group(vs, id));
        }
        match max_voices {
            None => {},
            Some(max_voices) => {
                if len > max_voices {
                    self.pop_quietest_voice_group(id);
                } else {
                    let fade = self.options.fade_out_killing;
                    let ghost total = pushed.len();
                    let ghost x = id;
                    proof {
                        // Before the push, no voice of group `id` was active (and, without
                        // fade-out killing, none existed at all).
                        let act_same = pred_active_in(x);
                        let same = pred_in(x);
                        let p = if fade { act_same } else { same };
                        assert forall|j: int| 0 <= j < s_old.len() implies !p(#[trigger] s_old[j]) by {
                            assert(s_old[j] == old(self).buffer@[j].info());
                        }
                        lemma_count_bounds(s_old, p, s_old.len() as int);
                        lemma_count_bounds(new_infos, p, new_infos.len() as int);
                        lemma_count_append(s_old, new_infos, p, new_infos.len() as int);
                        assert(group_measure(pushed, fade, x) == count_where(pushed, p, pushed.len() as int));
                        lemma_count_bounds(pushed, pred_active(), pushed.len() as int);
                    }
                    let mut iters: Ghost<nat> = Ghost(0);
                    while self.is_over_limit(max_voices)
                        invariant
                            self.wf(),
                            self.spec_id_counter() == id,
                            self.spec_options() == old(self).spec_options(),
                            self.spec_damper_held() == old(self).spec_damper_held(),
                            fade == self.spec_options().fade_out_killing,
                            x == id,
                            len <= max_voices,
                            group_measure(self@, fade, x) <= len,
                            limit_measure(self@, fade) + iters@ <= total,
                            trimmed(self@, self.held(), x, fade, max_voices, (total - iters@) as nat) == trimmed(
                                pushed,
                                held_old,
                                x,
                                fade,
                                max_voices,
                                total,
                            ),
                            self@ == infos(self.voices()),
                            total == pushed_v.len(),
                            trimmed_voices(self.voices(), x, fade, max_voices, (total - iters@) as nat)
                                == trimmed_voices(pushed_v, x, fade, max_voices, total),
                        decreases limit_measure(self@, fade),
                    {
                        let ghost s1 = self@;
                        let ghost h1 = self.held();
                        let ghost w1 = self.voices();
                        proof {
                            self.lemma_view();
                            lemma_pop_progress(s1, x, fade, max_voices);
                        }
                        self.pop_quietest_voice_group(id);
                        proof {
                            self.lemma_view_voices();
                            assert(trimmed_voices(w1, x, fade, max_voices, (total - iters@) as nat)
                                == trimmed_voices(self.voices(), x, fade, max_voices, (total - iters@ - 1) as nat));
                        }
                        proof {
                            assert(self@ == pop_infos(s1, x, fade));
                            assert(limit_measure(self@, fade) < limit_measure(s1, fade));
                            iters@ = iters@ + 1;
                        }
                    }
                    proof {
                        lemma_trimmed_done(self@, self.held(), x, fade, max_voices, (total - iters@) as nat);
                        assert(trimmed_voices(self.voices(), x, fade, max_voices, (total - iters@) as nat) == self.voices());
                    }
                }
            },
        }
    }
}


/// The voices and held groups after a group with information `new` and id
/// `id` was pushed onto `s` (held groups `held`) under the voice limit
/// `max`, as `VoiceBuffer::push_voices` does it.
pub open spec fn push_result(
    s: Seq<VoiceInfo>,
    held: Seq<usize>,
    id: usize,
    new: Seq<VoiceInfo>,
    fade: bool,
    max: Option<usize>,
) -> (Seq<VoiceInfo>, Seq<usize>) {
    let pushed = s + new;
    match max {
        None => (pushed, held),
        Some(m) => if new.len() > m {
            (pop_infos(pushed, id, fade), pop_held(held, pushed, id))
        } else {
            trimmed(pushed, held, id, fade, m, pushed.len())
        },
    }
}

/// Every voice belongs to a group (ids start at 1) and has a MIDI
/// velocity (below 128).
pub open spec fn midi_voices(s: Seq<VoiceInfo>) -> bool {
    forall|j: int| 0 <= j < s.len() ==> #[trigger] s[j].velocity < 128 && s[j].id != 0
}

/// Popping the quietest group keeps the other voices as they were.
pub proof fn lemma_pop_midi(s: Seq<VoiceInfo>, ignored: usize, fade: bool)
    requires
        midi_voices(s),
    ensures
        midi_voices(pop_infos(s, ignored, fade)),
{
    assert forall|j: int| 0 <= j < s.len() implies s[j].id != 0 && s[j].velocity < 255 by {
        assert(s[j].velocity < 128);
    }
    lemma_scan_bounds(s, ignored, s.len() as int);
    let (_q, qi, _qid, c) = quietest_group(s, ignored);
    if c != 0 && !fade {
        let r = pop_infos(s, ignored, fade);
        assert forall|j: int| 0 <= j < r.len() implies #[trigger] r[j].velocity < 128 && r[j].id != 0 by {
            if j < qi {
                assert(r[j] == s[j]);
            } else {
                assert(r[j] == s[j + c]);
            }
        }
    }
}

/// Trimming to the voice limit keeps the voices left as they were.
pub proof fn lemma_trimmed_midi(s: Seq<VoiceInfo>, held: Seq<usize>, ignored: usize, fade: bool, max: usize, fuel: nat)
    requires
        midi_voices(s),
    ensures
        midi_voices(trimmed(s, held, ignored, fade, max, fuel).0),
    decreases fuel,
{
    if fuel > 0 && over_limit(s, fade, max) {
        lemma_pop_midi(s, ignored, fade);
        lemma_trimmed_midi(pop_infos(s, ignored, fade), pop_held(held, s, ignored), ignored, fade, max, (fuel - 1) as nat);
    }
}

/// Pushing a group of voices with MIDI velocities keeps every voice so.
pub proof fn lemma_push_midi(s: Seq<VoiceInfo>, held: Seq<usize>, id: usize, new: Seq<VoiceInfo>, fade: bool, max: Option<usize>)
    requires
        midi_voices(s),
        midi_voices(new),
    ensures
        midi_voices(push_result(s, held, id, new, fade, max).0),
{
    let pushed = s + new;
    assert forall|j: int| 0 <= j < pushed.len() implies #[trigger] pushed[j].velocity < 128 && pushed[j].id != 0 by {
        if j < s.len() {
            assert(pushed[j] == s[j]);
        } else {
            assert(pushed[j] == new[j - s.len()]);
        }
    }
    match max {
        None => {},
        Some(m) => {
            if new.len() > m {
                lemma_pop_midi(pushed, id, fade);
            } else {
                lemma_trimmed_midi(pushed, held, id, fade, m, pushed.len());
            }
        },
    }
}

/// Releasing the next voice keeps ids and velocities.
pub proof fn lemma_release_next_midi(s: Seq<VoiceInfo>)
    requires
        midi_voices(s),
    ensures
        midi_voices(release_next_infos(s)),
{
    let r = release_next_infos(s);
    assert forall|j: int| 0 <= j < r.len() implies #[trigger] r[j].velocity < 128 && r[j].id != 0 by {
        assert(s[j].velocity < 128);
        assert(r[j].velocity == s[j].velocity && r[j].id == s[j].id);
    }
}

/// What holds of every voice holds of every voice kept by `select`.
pub proof fn lemma_select_keeps<A>(s: Seq<A>, keep: Seq<bool>, p: spec_fn(A) -> bool)
    requires
        keep.len() == s.len(),
        forall|i: int| 0 <= i < s.len() ==> #[trigger] p(s[i]),
    ensures
        forall|j: int| 0 <= j < select(s, keep).len() ==> #[trigger] p(select(s, keep)[j]),
    decreases s.len(),
{
    if s.len() > 0 {
        let s0 = s.drop_last();
        let k0 = keep.drop_last();
        assert forall|i: int| 0 <= i < s0.len() implies #[trigger] p(s0[i]) by {
            assert(s0[i] == s[i]);
        }
        lemma_select_keeps(s0, k0, p);
        let r = select(s, keep);
        let r0 = select(s0, k0);
        assert forall|j: int| 0 <= j < r.len() implies #[trigger] p(r[j]) by {
            if j < r0.len() {
                assert(r[j] == r0[j]);
            } else {
                assert(r[j] == s[s.len() - 1]);
            }
        }
    }
}


/// Voices that are not releasing.
pub open spec fn pred_unreleased() -> spec_fn(VoiceInfo) -> bool {
    |v: VoiceInfo| !v.releasing
}

/// Number of voices that are not releasing.
pub open spec fn unreleased_count(s: Seq<VoiceInfo>) -> nat {
    count_where(s, pred_unreleased(), s.len() as int)
}

/// There are no more voices not releasing than voices.
pub proof fn lemma_unreleased_bound(s: Seq<VoiceInfo>)
    ensures
        unreleased_count(s) <= s.len(),
{
    lemma_count_bounds(s, pred_unreleased(), s.len() as int);
}

/// Popping the quietest group adds no voice that is not releasing.
pub proof fn lemma_pop_unreleased(s: Seq<VoiceInfo>, ignored: usize, fade: bool)
    requires
        midi_voices(s),
    ensures
        unreleased_count(pop_infos(s, ignored, fade)) <= unreleased_count(s),
{
    assert forall|j: int| 0 <= j < s.len() implies s[j].id != 0 && s[j].velocity < 255 by {
        assert(s[j].velocity < 128);
    }
    lemma_scan_bounds(s, ignored, s.len() as int);
    let (_q, qi, _qid, c) = quietest_group(s, ignored);
    let t = pop_infos(s, ignored, fade);
    if c != 0 {
        if fade {
            lemma_count_mono(s, t, pred_unreleased(), s.len() as int);
        } else {
            lemma_count_remove_range(s, pred_unreleased(), qi, qi + c);
        }
    }
}

/// Trimming to the voice limit adds no voice that is not releasing.
pub proof fn lemma_trimmed_unreleased(
    s: Seq<VoiceInfo>,
    held: Seq<usize>,
    ignored: usize,
    fade: bool,
    max: usize,
    fuel: nat,
)
    requires
        midi_voices(s),
    ensures
        unreleased_count(trimmed(s, held, ignored, fade, max, fuel).0) <= unreleased_count(s),
    decreases fuel,
{
    if fuel > 0 && over_limit(s, fade, max) {
        lemma_pop_unreleased(s, ignored, fade);
        lemma_pop_midi(s, ignored, fade);
        lemma_trimmed_unreleased(
            pop_infos(s, ignored, fade),
            pop_held(held, s, ignored),
            ignored,
            fade,
            max,
            (fuel - 1) as nat,
        );
    }
}

/// Pushing an empty group adds no voice that is not releasing.
pub proof fn lemma_push_empty_unreleased(s: Seq<VoiceInfo>, held: Seq<usize>, id: usize, fade: bool, max: Option<usize>)
    requires
        midi_voices(s),
    ensures
        unreleased_count(push_result(s, held, id, Seq::empty(), fade, max).0) <= unreleased_count(s),
{
    let pushed = s + Seq::<VoiceInfo>::empty();
    assert(pushed =~= s);
    match max {
        None => {},
        Some(m) => {
            lemma_trimmed_unreleased(pushed, held, id, fade, m, pushed.len());
        },
    }
}

/// Where the first voice not releasing from `i` on stands.
pub proof fn lemma_first_unreleased_found(s: Seq<VoiceInfo>, i: int)
    requires
        0 <= i <= s.len(),
    ensures
        i <= first_unreleased_from(s, i) <= s.len(),
        first_unreleased_from(s, i) < s.len() ==> !s[first_unreleased_from(s, i)].releasing,
        forall|m: int| i <= m < first_unreleased_from(s, i) ==> #[trigger] s[m].releasing,
    decreases s.len() - i,
{
    if i < s.len() {
        lemma_first_unreleased_found(s, i + 1);
    }
}

proof fn lemma_group_run_end_after(s: Seq<VoiceInfo>, id: usize, i: int)
    requires
        0 <= i <= s.len(),
    ensures
        i <= group_run_end(s, id, i) <= s.len(),
    decreases s.len() - i,
{
    if i < s.len() {
        lemma_group_run_end_after(s, id, i + 1);
    }
}

/// Releasing the next voice, when there is one not releasing, leaves one
/// voice fewer not releasing.
pub proof fn lemma_release_next_unreleased(s: Seq<VoiceInfo>)
    requires
        first_unreleased_from(s, 0) < s.len(),
    ensures
        unreleased_count(release_next_infos(s)) < unreleased_count(s),
{
    lemma_first_unreleased_found(s, 0);
    let f = first_unreleased_from(s, 0);
    lemma_group_run_end_after(s, s[f].id, f + 1);
    let t = release_next_infos(s);
    assert(t[f].releasing);
    lemma_count_mono(s, t, pred_unreleased(), s.len() as int);
}


/// Voices, held groups and id counter after all-off with the damper up,
/// from voices `s`, held groups `held` and id counter `c`: while a voice is
/// not releasing, the next one is released and an empty group of release
/// voices is pushed under the limit `max`. (The recursion stops on its own
/// guard only if releasing left as many voices unreleased as before, which
/// `lemma_all_off_step` rules out for voices of MIDI velocity.)
pub open spec fn all_off_result(
    s: Seq<VoiceInfo>,
    held: Seq<usize>,
    c: usize,
    fade: bool,
    max: Option<usize>,
) -> (Seq<VoiceInfo>, Seq<usize>, usize)
    decreases unreleased_count(s),
{
    if first_unreleased_from(s, 0) < s.len() {
        let id = (c + 1) as usize;
        let next = push_result(release_next_infos(s), held, id, Seq::empty(), fade, max);
        if unreleased_count(next.0) < unreleased_count(s) {
            all_off_result(next.0, next.1, id, fade, max)
        } else {
            (s, held, c)
        }
    } else {
        (s, held, c)
    }
}

/// One round of all-off: releasing the next voice and pushing an empty
/// group leaves the rest of all-off to do the same.
pub proof fn lemma_all_off_step(s: Seq<VoiceInfo>, held: Seq<usize>, c: usize, fade: bool, max: Option<usize>)
    requires
        midi_voices(s),
        first_unreleased_from(s, 0) < s.len(),
    ensures
        ({
            let id = (c + 1) as usize;
            let next = push_result(release_next_infos(s), held, id, Seq::empty(), fade, max);
            &&& midi_voices(next.0)
            &&& unreleased_count(next.0) < unreleased_count(s)
            &&& all_off_result(s, held, c, fade, max) == all_off_result(next.0, next.1, id, fade, max)
        }),
{
    let id = (c + 1) as usize;
    let r = release_next_infos(s);
    lemma_release_next_unreleased(s);
    lemma_release_next_midi(s);
    lemma_push_empty_unreleased(r, held, id, fade, max);
    lemma_push_midi(r, held, id, Seq::empty(), fade, max);
}

/// All-off with the damper up leaves no voice that is not releasing.
pub proof fn lemma_all_off_releases(s: Seq<VoiceInfo>, held: Seq<usize>, c: usize, fade: bool, max: Option<usize>)
    requires
        midi_voices(s),
    ensures
        forall|j: int|
            0 <= j < all_off_result(s, held, c, fade, max).0.len()
                ==> (#[trigger] all_off_result(s, held, c, fade, max).0[j]).releasing,
    decreases unreleased_count(s),
{
    lemma_first_unreleased_found(s, 0);
    if first_unreleased_from(s, 0) < s.len() {
        let id = (c + 1) as usize;
        let next = push_result(release_next_infos(s), held, id, Seq::empty(), fade, max);
        lemma_all_off_step(s, held, c, fade, max);
        lemma_all_off_releases(next.0, next.1, id, fade, max);
    }
}


/// The voices of one group have one velocity (they were spawned by one note).
pub open spec fn groups_uniform(s: Seq<VoiceInfo>) -> bool {
    forall|i: int, j: int|
        0 <= i < s.len() && 0 <= j < s.len() && #[trigger] s[i].id == #[trigger] s[j].id ==> s[i].velocity
            == s[j].velocity
}

proof fn lemma_scan_least(s: Seq<VoiceInfo>, ignored: usize, n: int)
    requires
        0 <= n <= s.len(),
        midi_voices(s),
        groups_uniform(s),
    ensures
        ({
            let (q, qi, qid, c) = quietest_scan(s, ignored, n);
            c > 0 ==> {
                &&& 0 <= qi < n
                &&& !is_skipped(s[qi], ignored)
                &&& s[qi].id == qid
                &&& s[qi].velocity == q
                &&& forall|j: int| 0 <= j < n && !is_skipped(s[j], ignored) ==> q <= #[trigger] s[j].velocity
                &&& forall|j: int| 0 <= j < qi && !is_skipped(s[j], ignored) ==> q < #[trigger] s[j].velocity
            }
        }),
        quietest_scan(s, ignored, n).3 == 0 ==> quietest_scan(s, ignored, n).2 == 0 && quietest_scan(
            s,
            ignored,
            n,
        ).0 == 255,
    decreases n,
{
    if n > 0 {
        assert forall|j: int| 0 <= j < s.len() implies s[j].id != 0 && s[j].velocity < 255 by {
            assert(s[j].velocity < 128);
        }
        lemma_scan_bounds(s, ignored, n - 1);
        lemma_scan_least(s, ignored, n - 1);
        let i = n - 1;
        assert(s[i].velocity < 128 && s[i].id != 0);
        let prev = quietest_scan(s, ignored, n - 1);
        let cur = quietest_scan(s, ignored, n);
        if is_skipped(s[i], ignored) {
            assert(cur == prev);
        } else if prev.2 == s[i].id {
            assert(prev.3 > 0);
            assert(0 <= prev.1 < n - 1);
            assert(s[prev.1].id == s[i].id);
            assert(s[prev.1].velocity == s[i].velocity);
            assert(cur == (prev.0, prev.1, prev.2, prev.3 + 1));
        } else if s[i].velocity < prev.0 || i == 0 {
            assert(cur == (s[i].velocity, i, s[i].id, 1int));
            assert forall|j: int| 0 <= j < n && !is_skipped(s[j], ignored) implies cur.0 <= #[trigger] s[j].velocity by {
                if j < i {
                    assert(prev.3 > 0);
                }
            }
            assert forall|j: int| 0 <= j < cur.1 && !is_skipped(s[j], ignored) implies cur.0 < #[trigger] s[j].velocity by {
                assert(prev.3 > 0);
            }
        } else {
            assert(cur == prev);
            assert(prev.3 > 0);
        }
    }
}

/// The quietest-group search picks the first voice of the least velocity
/// among the voices it does not pass over, when voices of one group share
/// their velocity: its group is the one that is popped.
pub proof fn lemma_quietest_least(s: Seq<VoiceInfo>, ignored: usize)
    requires
        midi_voices(s),
        groups_uniform(s),
        exists|j: int| 0 <= j < s.len() && !is_skipped(s[j], ignored),
    ensures
        ({
            let (q, qi, qid, c) = quietest_group(s, ignored);
            &&& c > 0
            &&& 0 <= qi < s.len()
            &&& !is_skipped(s[qi], ignored)
            &&& s[qi].id == qid
            &&& s[qi].velocity == q
            &&& forall|j: int| 0 <= j < s.len() && !is_skipped(s[j], ignored) ==> q <= #[trigger] s[j].velocity
            &&& forall|j: int| 0 <= j < qi && !is_skipped(s[j], ignored) ==> q < #[trigger] s[j].velocity
        }),
{
    assert forall|j: int| 0 <= j < s.len() implies s[j].id != 0 && s[j].velocity < 255 by {
        assert(s[j].velocity < 128);
    }
    lemma_scan_bounds(s, ignored, s.len() as int);
    lemma_scan_least(s, ignored, s.len() as int);
}

proof fn lemma_scan_skip_tail(s: Seq<VoiceInfo>, ignored: usize, k: int, n: int)
    requires
        0 <= k <= n <= s.len(),
        forall|j: int| k <= j < n ==> is_skipped(#[trigger] s[j], ignored),
    ensures
        quietest_scan(s, ignored, n) == quietest_scan(s, ignored, k),
    decreases n,
{
    if n > k {
        lemma_scan_skip_tail(s, ignored, k, n - 1);
    }
}

proof fn lemma_pop_keeps_tail(p: Seq<VoiceInfo>, new: Seq<VoiceInfo>, ignored: usize, fade: bool) -> (rest: Seq<
    VoiceInfo,
>)
    requires
        midi_voices(p + new),
        forall|j: int| 0 <= j < new.len() ==> (#[trigger] new[j]).id == ignored,
    ensures
        pop_infos(p + new, ignored, fade) == rest + new,
        rest.len() <= p.len(),
{
    let s = p + new;
    assert forall|j: int| 0 <= j < s.len() implies s[j].id != 0 && s[j].velocity < 255 by {
        assert(s[j].velocity < 128);
    }
    assert forall|j: int| p.len() <= j < s.len() implies is_skipped(#[trigger] s[j], ignored) by {
        assert(s[j] == new[j - p.len()]);
    }
    lemma_scan_skip_tail(s, ignored, p.len() as int, s.len() as int);
    lemma_scan_bounds(s, ignored, p.len() as int);
    let (_q, qi, _qid, c) = quietest_group(s, ignored);
    if c == 0 {
        p
    } else if fade {
        let rest = Seq::new(
            p.len(),
            |j: int|
                if qi <= j < qi + c {
                    released_info(s[j], ReleaseType::Kill)
                } else {
                    s[j]
                },
        );
        assert(pop_infos(s, ignored, fade) =~= rest + new);
        rest
    } else {
        let rest = p.subrange(0, qi) + p.subrange(qi + c, p.len() as int);
        assert(pop_infos(s, ignored, fade) =~= rest + new);
        rest
    }
}

proof fn lemma_trimmed_keeps_tail(
    p: Seq<VoiceInfo>,
    new: Seq<VoiceInfo>,
    held: Seq<usize>,
    ignored: usize,
    fade: bool,
    max: usize,
    fuel: nat,
) -> (rest: Seq<VoiceInfo>)
    requires
        midi_voices(p + new),
        forall|j: int| 0 <= j < new.len() ==> (#[trigger] new[j]).id == ignored,
    ensures
        trimmed(p + new, held, ignored, fade, max, fuel).0 == rest + new,
        rest.len() <= p.len(),
    decreases fuel,
{
    if fuel == 0 || !over_limit(p + new, fade, max) {
        p
    } else {
        let p2 = lemma_pop_keeps_tail(p, new, ignored, fade);
        lemma_pop_midi(p + new, ignored, fade);
        lemma_trimmed_keeps_tail(p2, new, pop_held(held, p + new, ignored), ignored, fade, max, (fuel - 1) as nat)
    }
}

/// A group pushed under the voice limit is never evicted: the pushed
/// voices stay, unchanged, at the end, after what is left of the others.
pub proof fn lemma_push_keeps_new(
    s: Seq<VoiceInfo>,
    held: Seq<usize>,
    id: usize,
    new: Seq<VoiceInfo>,
    fade: bool,
    max: Option<usize>,
) -> (rest: Seq<VoiceInfo>)
    requires
        midi_voices(s),
        midi_voices(new),
        forall|j: int| 0 <= j < new.len() ==> (#[trigger] new[j]).id == id,
    ensures
        push_result(s, held, id, new, fade, max).0 == rest + new,
        rest.len() <= s.len(),
{
    let pushed = s + new;
    assert forall|j: int| 0 <= j < pushed.len() implies #[trigger] pushed[j].velocity < 128 && pushed[j].id != 0 by {
        if j < s.len() {
            assert(pushed[j] == s[j]);
        } else {
            assert(pushed[j] == new[j - s.len()]);
        }
    }
    match max {
        None => s,
        Some(m) => {
            if new.len() > m {
                lemma_pop_keeps_tail(s, new, id, fade)
            } else {
                lemma_trimmed_keeps_tail(s, new, held, id, fade, m, pushed.len())
            }
        },
    }
}


} // verus!
