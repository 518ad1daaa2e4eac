//! The governance of concurrent work: how many downloads, decompressions
//! and installations run at once, and how much memory the decompressions
//! may hold.
//!
//! Each kind of work has a number of permits. Work starts by taking a
//! permit and ends by giving it back. Taking never waits here: when no
//! permit is free the caller is told so, and waits or goes on elsewhere.

use vstd::prelude::*;

verus! {

/// The limits of concurrent work.
#[derive(Clone, Copy, Debug, PartialEq, Eq, Structural)]
pub struct ResourceLimits {
    pub concurrent_downloads: usize,
    pub concurrent_decompressions: usize,
    pub concurrent_installations: usize,
    /// The memory that decompressions may hold, if it is limited.
    pub memory_usage: Option<u64>,
}

/// The permits that are free.
#[derive(Clone, Copy, Debug, PartialEq, Eq, Structural)]
pub struct ResourceAvailability {
    pub download: usize,
    pub decompression: usize,
    pub installation: usize,
}

/// The kinds of work.
#[derive(Clone, Copy, Debug, PartialEq, Eq, Structural)]
pub enum ResourceKind {
    Download,
    Decompression,
    Installation,
}

/// The manager of the permits and of the memory count.
#[derive(Clone, Copy, Debug, PartialEq, Eq, Structural)]
pub struct ResourceManager {
    pub limits: ResourceLimits,
    pub available: ResourceAvailability,
    /// The memory that running decompressions hold.
    pub memory_usage: u64,
}

/// The limit of one kind of work.
pub open spec fn limit_of(limits: ResourceLimits, kind: ResourceKind) -> usize {
    match kind {
        ResourceKind::Download => limits.concurrent_downloads,
        ResourceKind::Decompression => limits.concurrent_decompressions,
        ResourceKind::Installation => limits.concurrent_installations,
    }
}

/// The free permits of one kind of work.
pub open spec fn free_of(available: ResourceAvailability, kind: ResourceKind) -> usize {
    match kind {
        ResourceKind::Download => available.download,
        ResourceKind::Decompression => available.decompression,
        ResourceKind::Installation => available.installation,
    }
}

/// The availability with the free permits of one kind set to `n`.
pub open spec fn with_free(available: ResourceAvailability, kind: ResourceKind, n: usize) -> ResourceAvailability {
    match kind {
        ResourceKind::Download => ResourceAvailability { download: n, ..available },
        ResourceKind::Decompression => ResourceAvailability { decompression: n, ..available },
        ResourceKind::Installation => ResourceAvailability { installation: n, ..available },
    }
}

impl ResourceManager {
    /// No kind of work has more permits free than its limit allows.
    pub open spec fn wf(self) -> bool {
        &&& self.available.download <= self.limits.concurrent_downloads
        &&& self.available.decompression <= self.limits.concurrent_decompressions
        &&& self.available.installation <= self.limits.concurrent_installations
    }

    /// The permits in use for one kind of work.
    pub open spec fn in_use(self, kind: ResourceKind) -> int {
        limit_of(self.limits, kind) - free_of(self.available, kind)
    }

    /// A manager with all permits free and no memory held.
    pub fn new(limits: ResourceLimits) -> (m: ResourceManager)
        ensures
            m.wf(),
            m.limits == limits,
            m.available == (ResourceAvailability {
                download: limits.concurrent_downloads,
                decompression: limits.concurrent_decompressions,
                installation: limits.concurrent_installations,
            }),
            m.memory_usage == 0,
    {
        ResourceManager {
            limits,
            available: ResourceAvailability {
                download: limits.concurrent_downloads,
                decompression: limits.concurrent_decompressions,
                installation: limits.concurrent_installations,
            },
            memory_usage: 0,
        }
    }

    /// Takes a permit for `kind` if one is free, and says whether it did.
    pub fn try_acquire(&mut self, kind: ResourceKind) -> (taken: bool)
        requires
            old(self).wf(),
        ensures
            final(self).wf(),
            taken == (free_of(old(self).available, kind) > 0),
            taken ==> *final(self) == (ResourceManager {
                available: with_free(
                    old(self).available,
                    kind,
                    (free_of(old(self).available, kind) - 1) as usize,
                ),
                ..*old(self)
            }),
            !taken ==> *final(self) == *old(self),
    {
        match kind {
            ResourceKind::Download => {
                if self.available.download > 0 {
                    self.available.download -= 1;
                    true
                } else {
                    false
                }
            },
            ResourceKind::Decompression => {
                if self.available.decompression > 0 {
                    self.available.decompression -= 1;
                    true
                } else {
                    false
                }
            },
            ResourceKind::Installation => {
                if self.available.installation > 0 {
                    self.available.installation -= 1;
                    true
                } else {
                    false
                }
            },
        }
    }

    /// Takes a download permit if one is free.
    pub fn try_acquire_download_permit(&mut self) -> (taken: bool)
        requires
            old(self).wf(),
        ensures
            final(self).wf(),
            taken == (old(self).available.download > 0),
            taken ==> *final(self) == (ResourceManager {
                available: ResourceAvailability {
                    download: (old(self).available.download - 1) as usize,
                    ..old(self).available
                },
                ..*old(self)
            }),
            !taken ==> *final(self) == *old(self),
    {
        self.try_acquire(ResourceKind::Download)
    }

    /// Takes a decompression permit if one is free.
    pub fn try_acquire_decompression_permit(&mut self) -> (taken: bool)
        requires
            old(self).wf(),
        ensures
            final(self).wf(),
            taken == (old(self).available.decompression > 0),
            taken ==> *final(self) == (ResourceManager {
                available: ResourceAvailability {
                    decompression: (old(self).available.decompression - 1) as usize,
                    ..old(self).available
                },
                ..*old(self)
            }),
            !taken ==> *final(self) == *old(self),
    {
        self.try_acquire(ResourceKind::Decompression)
    }

    /// Takes an installation permit if one is free.
    pub fn try_acquire_installation_permit(&mut self) -> (taken: bool)
        requires
            old(self).wf(),
        ensures
            final(self).wf(),
            taken == (old(self).available.installation > 0),
            taken ==> *final(self) == (ResourceManager {
                available: ResourceAvailability {
                    installation: (old(self).available.installation - 1) as usize,
                    ..old(self).available
                },
                ..*old(self)
            }),
            !taken ==> *final(self) == *old(self),
    {
        self.try_acquire(ResourceKind::Installation)
    }

    /// Gives a permit for `kind` back. Giving back more than was taken
    /// changes nothing.
    pub fn release(&mut self, kind: ResourceKind)
        requires
            old(self).wf(),
        ensures
            final(self).wf(),
            *final(self) == (ResourceManager {
                available: with_free(
                    old(self).available,
                    kind,
                    if free_of(old(self).available, kind) < limit_of(old(self).limits, kind) {
                        (free_of(old(self).available, kind) + 1) as usize
                    } else {
                        free_of(old(self).available, kind)
                    },
                ),
                ..*old(self)
            }),
    {
        match kind {
            ResourceKind::Download => {
                if self.available.download < self.limits.concurrent_downloads {
                    self.available.download += 1;
                }
            },
            ResourceKind::Decompression => {
                if self.available.decompression < self.limits.concurrent_decompressions {
                    self.available.decompression += 1;
                }
            },
            ResourceKind::Installation => {
                if self.available.installation < self.limits.concurrent_installations {
                    self.available.installation += 1;
                }
            },
        }
    }

    /// Whether `current_usage` is within the memory limit. Without a limit
    /// everything is.
    pub fn is_memory_within_limits(&self, current_usage: u64) -> (r: bool)
        ensures
            r == match self.limits.memory_usage {
                Some(limit) => current_usage <= limit,
                None => true,
            },
    {
        match self.limits.memory_usage {
            Some(limit) => current_usage <= limit,
            None => true,
        }
    }

    /// Counts the memory of a decompression that begins.
    pub fn begin_decompression(&mut self, bytes: u64)
        ensures
            *final(self) == (ResourceManager {
                memory_usage: if old(self).memory_usage + bytes > u64::MAX {
                    u64::MAX
                } else {
                    (old(self).memory_usage + bytes) as u64
                },
                ..*old(self)
            }),
    {
        self.memory_usage = self.memory_usage.saturating_add(bytes);
    }

    /// Uncounts the memory of a decompression that ends.
    pub fn end_decompression(&mut self, bytes: u64)
        ensures
            *final(self) == (ResourceManager {
                memory_usage: if old(self).memory_usage >= bytes {
                    (old(self).memory_usage - bytes) as u64
                } else {
                    0
                },
                ..*old(self)
            }),
    {
        self.memory_usage = self.memory_usage.saturating_sub(bytes);
    }

    /// The permits that are free.
    pub fn get_resource_availability(&self) -> (a: ResourceAvailability)
        ensures
            a == self.available,
    {
        self.available
    }

    /// Nothing is left to clean up.
    pub fn cleanup(&self) -> (r: Result<(), crate::errors::OpsError>)
        ensures
            r is Ok,
    {
        Ok(())
    }
}

/// A permit that was taken and given back leaves the manager as it was.
pub proof fn law_acquire_then_release(m: ResourceManager, kind: ResourceKind)
    requires
        m.wf(),
        free_of(m.available, kind) > 0,
    ensures
        ({
            let taken = ResourceManager {
                available: with_free(m.available, kind, (free_of(m.available, kind) - 1) as usize),
                ..m
            };
            let back = ResourceManager {
                available: with_free(
                    taken.available,
                    kind,
                    if free_of(taken.available, kind) < limit_of(taken.limits, kind) {
                        (free_of(taken.available, kind) + 1) as usize
                    } else {
                        free_of(taken.available, kind)
                    },
                ),
                ..taken
            };
            back == m && taken.in_use(kind) == m.in_use(kind) + 1 && taken.in_use(kind) <= limit_of(
                m.limits,
                kind,
            )
        }),
{
}

} // verus!
