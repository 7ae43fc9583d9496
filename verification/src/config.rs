use crate::error::{Error, ErrorKind};
use vstd::prelude::*;

verus! {

/// The byte order in which multi-byte integers are read.
#[derive(Debug, Clone, Copy, PartialEq, Eq, Structural)]
pub enum Endian {
    Little,
    Big,
}

/// How many more bytes may be read.
#[derive(Debug, Clone, Copy, PartialEq, Eq, Structural)]
pub enum SizeLimit {
    /// At most this many further bytes.
    Bounded(u64),
    /// No limit.
    Infinite,
}

impl SizeLimit {
    /// Whether `n` more bytes fit in the limit.
    pub open spec fn allows(self, n: nat) -> bool {
        match self {
            SizeLimit::Bounded(rem) => n <= rem,
            SizeLimit::Infinite => true,
        }
    }

    /// The limit after `n` bytes have been charged to it.
    pub open spec fn charged(self, n: nat) -> SizeLimit {
        match self {
            SizeLimit::Bounded(rem) => SizeLimit::Bounded((rem - n) as u64),
            SizeLimit::Infinite => SizeLimit::Infinite,
        }
    }

    /// Charges `n` bytes to the limit, failing when they do not fit.
    pub fn add(&mut self, n: u64) -> (r: Result<(), Error>)
        ensures
            match *old(self) {
                SizeLimit::Bounded(rem) => if n <= rem {
                    r is Ok && *final(self) == SizeLimit::Bounded((rem - n) as u64)
                } else {
                    r == Err::<(), Error>(Box::new(ErrorKind::SizeLimit)) && *final(self)
                        == *old(self)
                },
                SizeLimit::Infinite => r is Ok && *final(self) == SizeLimit::Infinite,
            },
            old(self).allows(n as nat) ==> r is Ok && *final(self) == old(self).charged(n as nat),
            !old(self).allows(n as nat) ==> r == Err::<(), Error>(Box::new(ErrorKind::SizeLimit))
                && *final(self) == *old(self),
    {
        match self {
            SizeLimit::Bounded(rem) => {
                if *rem >= n {
                    *rem = *rem - n;
                    Ok(())
                } else {
                    Err(Box::new(ErrorKind::SizeLimit))
                }
            },
            SizeLimit::Infinite => Ok(()),
        }
    }
}

/// Decoding options: the byte order of integers and the size limit.
#[derive(Debug, Clone, Copy, PartialEq, Eq, Structural)]
pub struct Options {
    pub endian: Endian,
    pub limit: SizeLimit,
}

impl Options {
    /// Options with the given byte order and limit.
    pub fn new(endian: Endian, limit: SizeLimit) -> (o: Options)
        ensures
            o == (Options { endian, limit }),
    {
        Options { endian, limit }
    }

    /// The options after `n` bytes have been charged to the limit.
    pub open spec fn charged(self, n: nat) -> Options {
        Options { endian: self.endian, limit: self.limit.charged(n) }
    }
}

} // verus!
