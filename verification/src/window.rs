use vstd::prelude::*;

verus! {

/// The window after `frame` has come in at the back: the oldest samples leave
/// at the front, as many as arrive, and the rest keep their order.
pub open spec fn slid<T>(window: Seq<T>, frame: Seq<T>) -> Seq<T> {
    window.skip(frame.len() as int) + frame
}

/// The last `n` samples of everything heard so far.
pub open spec fn most_recent<T>(history: Seq<T>, n: nat) -> Seq<T> {
    history.skip(history.len() - n)
}

/// Moves `frame` into the back of `window` and drops as many of the oldest
/// samples from its front.
pub fn slide<T: Copy>(window: &mut Vec<T>, frame: &[T])
    requires
        frame@.len() <= old(window)@.len(),
    ensures
        final(window)@ == slid(old(window)@, frame@),
{
    let n: usize = window.len();
    let f: usize = frame.len();
    let kept: usize = n - f;
    let mut i: usize = 0;
    while i < kept
        invariant
            window@.len() == n,
            f == frame@.len(),
            kept == n - f,
            i <= kept,
            forall|j: int| 0 <= j < i ==> window@[j] == old(window)@[j + f],
            forall|j: int| i <= j < n ==> window@[j] == old(window)@[j],
        decreases kept - i,
    {
        let moved = window[i + f];
        window.set(i, moved);
        i += 1;
    }
    let mut j: usize = 0;
    while j < f
        invariant
            window@.len() == n,
            f == frame@.len(),
            kept == n - f,
            j <= f,
            forall|t: int| 0 <= t < kept ==> window@[t] == old(window)@[t + f],
            forall|t: int| 0 <= t < j ==> window@[kept + t] == frame@[t],
        decreases f - j,
    {
        window.set(kept + j, frame[j]);
        j += 1;
    }
    assert(window@ =~= slid(old(window)@, frame@));
}

/// A window that holds the most recent `n` samples of a history still does so
/// once a frame has been heard and slid in, whatever the frame's length up to
/// `n`: the window always is the tail of the stream, in the order heard.
pub proof fn lemma_window_follows_history<T>(history: Seq<T>, frame: Seq<T>, n: nat)
    requires
        n <= history.len(),
        frame.len() <= n,
    ensures
        slid(most_recent(history, n), frame) == most_recent(history + frame, n),
{
    assert(slid(most_recent(history, n), frame) =~= most_recent(history + frame, n));
}

/// Two frames of half a window each replace the whole window.
pub proof fn lemma_two_frames_replace_window<T>(window: Seq<T>, first: Seq<T>, second: Seq<T>)
    requires
        first.len() == second.len(),
        window.len() == first.len() + second.len(),
    ensures
        slid(slid(window, first), second) == first + second,
{
    assert(slid(slid(window, first), second) =~= first + second);
}

} // verus!
