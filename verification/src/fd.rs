use vstd::prelude::*;

verus! {

/// The largest number of buffers one vectored read or write accepts: the
/// system's limit, 1024 on Linux, Android, macOS, iOS and FreeBSD alike.
pub const MAX_IOV: usize = 1024;

/// Whether a vectored read or write of `n_bufs` buffers is accepted.
pub fn iov_count_ok(n_bufs: usize) -> (r: bool)
    ensures
        r == (n_bufs <= 1024),
{
    n_bufs <= MAX_IOV
}

/// The outcome of a read or write system call that returned `amount`: a
/// negative amount is a failure whose cause the system reports, any other is
/// the number of bytes moved.
pub fn syscall_amount(amount: isize) -> (r: Option<usize>)
    ensures
        amount < 0 ==> r is None,
        amount >= 0 ==> r == Some(amount as usize),
{
    if amount < 0 {
        None
    } else {
        Some(amount as usize)
    }
}

/// A POSIX file descriptor and whether it is borrowed, so that it is not
/// closed when released.
pub struct Fd {
    inner: i32,
    borrow: bool,
}

impl Fd {
    /// The descriptor number, or -1 once given away or closed.
    pub closed spec fn raw(&self) -> i32 {
        self.inner
    }

    /// Whether the descriptor is borrowed.
    pub closed spec fn borrowed(&self) -> bool {
        self.borrow
    }

    /// Whether releasing the descriptor closes it: an owned descriptor that
    /// is still held.
    pub open spec fn closes_on_release(&self) -> bool {
        !self.borrowed() && self.raw() >= 0
    }

    /// Takes ownership of the descriptor `value`; a negative value is the
    /// failure of the call that was to open it, and yields nothing.
    pub fn new(value: i32) -> (r: Option<Fd>)
        ensures
            value < 0 ==> r is None,
            value >= 0 ==> (r matches Some(fd) && fd.raw() == value && !fd.borrowed()),
    {
        if value < 0 {
            return None;
        }
        Some(Fd::new_unchecked(value))
    }

    /// Takes ownership of the descriptor `value` as it is.
    pub fn new_unchecked(value: i32) -> (r: Fd)
        ensures
            r.raw() == value,
            !r.borrowed(),
    {
        Fd::new_unchecked_with_borrow(value, false)
    }

    /// Holds the descriptor `value`, borrowed or owned as `borrow` says.
    pub fn new_unchecked_with_borrow(value: i32, borrow: bool) -> (r: Fd)
        ensures
            r.raw() == value,
            r.borrowed() == borrow,
    {
        Fd { inner: value, borrow }
    }

    /// The descriptor number.
    pub fn as_raw_fd(&self) -> (r: i32)
        ensures
            r == self.raw(),
    {
        self.inner
    }

    /// Gives the descriptor away: returns its number and holds it no longer,
    /// so that releasing this value does not close it.
    pub fn into_raw_fd(&mut self) -> (r: i32)
        ensures
            r == old(self).raw(),
            final(self).raw() == -1,
            final(self).borrowed() == old(self).borrowed(),
    {
        let fd = self.inner;
        self.inner = -1;
        fd
    }

    /// Releases the descriptor: returns the number to close, if the
    /// descriptor is owned and still held, and holds it no longer.
    pub fn release(&mut self) -> (r: Option<i32>)
        ensures
            old(self).closes_on_release() ==> r == Some(old(self).raw()) && final(self).raw() == -1,
            !old(self).closes_on_release() ==> r is None && final(self).raw() == old(self).raw(),
            final(self).borrowed() == old(self).borrowed(),
    {
        if !self.borrow && self.inner >= 0 {
            let fd = self.inner;
            self.inner = -1;
            Some(fd)
        } else {
            None
        }
    }
}


/// A borrowed descriptor is never closed by its holder.
pub proof fn law_borrowed_never_closed(fd: Fd)
    requires
        fd.borrowed(),
    ensures
        !fd.closes_on_release(),
{
}

/// A descriptor is closed at most once: once it has been given away or
/// released, releasing it again closes nothing.
pub proof fn law_closed_at_most_once(fd: Fd)
    requires
        fd.raw() == -1,
    ensures
        !fd.closes_on_release(),
{
}

} // verus!
