//! Tuning configuration for the backup pipelines, and counters that track
//! what the pipelines have done.

use vstd::prelude::*;
use vstd::string::StringExecFns;

verus! {

/// Performance configuration for backup operations.
#[derive(Debug, Clone)]
pub struct PerformanceConfig {
    /// Number of threads to use for parallel operations.
    pub thread_count: usize,
    /// Maximum memory usage in MB for operations.
    pub max_memory_mb: usize,
    /// Compression level (1-22, higher = better compression but slower).
    pub compression_level: i32,
    /// Buffer size for I/O operations in bytes.
    pub io_buffer_size: usize,
    /// Chunk size for parallel processing in bytes.
    pub chunk_size: usize,
    /// Enable adaptive compression based on input size.
    pub adaptive_compression: bool,
    /// Enable parallel deduplication checks.
    pub parallel_dedup: bool,
    /// Maximum files to process in a single batch.
    pub max_batch_size: usize,
}

impl PerformanceConfig {
    /// The domain of a configuration: every field within the bounds that
    /// `validate` accepts.
    pub open spec fn valid(self) -> bool {
        &&& self.thread_count > 0
        &&& self.max_memory_mb >= 128
        &&& 1 <= self.compression_level <= 22
        &&& self.io_buffer_size >= 1024
        &&& self.chunk_size >= self.io_buffer_size
        &&& self.max_batch_size > 0
    }

    /// The compression level used for an input of `file_size` bytes:
    /// at most 1 MiB keeps the configured level, up to 10 MiB drops it
    /// by two, up to 100 MiB by four (never under 6), and anything larger
    /// compresses at level 6.  Without adaptive compression the configured
    /// level is used everywhere.
    pub open spec fn spec_adaptive_level(self, file_size: usize) -> int {
        if !self.adaptive_compression {
            self.compression_level as int
        } else if file_size <= 1048576 {
            self.compression_level as int
        } else if file_size <= 10485760 {
            if self.compression_level - 2 >= 6 {
                self.compression_level - 2
            } else {
                6
            }
        } else if file_size <= 104857600 {
            if self.compression_level - 4 >= 6 {
                self.compression_level - 4
            } else {
                6
            }
        } else {
            6
        }
    }

    /// The configuration the CPU-count bands call for: one core left for
    /// the system above four cores, memory at half the band's assumed
    /// total clamped to 512..=8192 MB, level and buffer and chunk sizes
    /// by band, parallel dedup above two cores, and a batch cap of ten
    /// files per core within 20..=200.
    pub open spec fn spec_auto_config(cpu_count: usize) -> PerformanceConfig {
        let avail: int = if cpu_count <= 2 {
            2048
        } else if cpu_count <= 4 {
            4096
        } else if cpu_count <= 8 {
            8192
        } else {
            16384
        };
        let half = avail / 2;
        let batch: int = if cpu_count * 10 > 200 {
            200
        } else if cpu_count * 10 < 20 {
            20
        } else {
            cpu_count * 10
        };
        PerformanceConfig {
            thread_count: if cpu_count > 4 {
                (cpu_count - 1) as usize
            } else {
                cpu_count
            },
            max_memory_mb: (if half < 512 {
                512int
            } else if half > 8192 {
                8192int
            } else {
                half
            }) as usize,
            compression_level: if cpu_count <= 2 {
                15
            } else if cpu_count <= 4 {
                17
            } else {
                19
            },
            io_buffer_size: (if cpu_count <= 2 {
                262144int
            } else if cpu_count <= 4 {
                524288int
            } else if cpu_count <= 8 {
                1048576int
            } else {
                2097152int
            }) as usize,
            chunk_size: (if cpu_count <= 2 {
                1048576int
            } else if cpu_count <= 4 {
                2097152int
            } else if cpu_count <= 8 {
                4194304int
            } else {
                8388608int
            }) as usize,
            adaptive_compression: true,
            parallel_dedup: cpu_count > 2,
            max_batch_size: batch as usize,
        }
    }

    /// Auto-detect performance settings from the machine's CPU count.
    /// The count is an outside observation; the band mapping applied to
    /// it is fixed by `spec_auto_config`.
    pub fn auto_detect() -> (r: PerformanceConfig)
        ensures
            exists|c: usize| c >= 1 && r == PerformanceConfig::spec_auto_config(c),
            r.valid(),
            r.adaptive_compression,
    {
        let count = cpu_count();
        let r = Self::auto_detect_from(count);
        proof {
            assert(count >= 1 && r == PerformanceConfig::spec_auto_config(count));
        }
        r
    }

    /// The configuration for a machine with this many CPUs.
    pub fn auto_detect_from(cpu_count: usize) -> (r: PerformanceConfig)
        requires
            cpu_count >= 1,
        ensures
            r == PerformanceConfig::spec_auto_config(cpu_count),
            r.valid(),
            r.adaptive_compression,
    {
        let available_memory = Self::get_available_memory_mb(cpu_count);

        // Leave one core for the system on larger machines.
        let thread_count = if cpu_count > 4 {
            cpu_count - 1
        } else {
            cpu_count
        };

        // Use up to half the available memory, between 512MB and 8GB.
        let half = available_memory / 2;
        let max_memory_mb = if half < 512 {
            512
        } else if half > 8192 {
            8192
        } else {
            half
        };

        let compression_level: i32 = if cpu_count <= 2 {
            15
        } else if cpu_count <= 4 {
            17
        } else {
            19
        };
        let io_buffer_size: usize = if cpu_count <= 2 {
            262144
        } else if cpu_count <= 4 {
            524288
        } else if cpu_count <= 8 {
            1048576
        } else {
            2097152
        };
        let chunk_size: usize = if cpu_count <= 2 {
            1048576
        } else if cpu_count <= 4 {
            2097152
        } else if cpu_count <= 8 {
            4194304
        } else {
            8388608
        };

        let max_batch_size = if cpu_count > 20 {
            200
        } else if cpu_count < 2 {
            20
        } else {
            cpu_count * 10
        };

        let r = PerformanceConfig {
            thread_count,
            max_memory_mb,
            compression_level,
            io_buffer_size,
            chunk_size,
            adaptive_compression: true,
            parallel_dedup: cpu_count > 2,
            max_batch_size,
        };
        proof {
            assert(r == PerformanceConfig::spec_auto_config(cpu_count));
        }
        r
    }

    /// Create a custom performance configuration: auto-detected settings
    /// with the given fields overridden.
    pub fn custom(
        thread_count: Option<usize>,
        max_memory_mb: Option<usize>,
        compression_level: Option<i32>,
    ) -> (r: PerformanceConfig)
        ensures
            thread_count matches Some(t) ==> r.thread_count == t,
            max_memory_mb matches Some(m) ==> r.max_memory_mb == m,
            compression_level matches Some(l) ==> r.compression_level == l,
            thread_count is None ==> r.thread_count > 0,
            max_memory_mb is None ==> r.max_memory_mb >= 128,
            compression_level is None ==> 1 <= r.compression_level <= 22,
    {
        let auto_config = Self::auto_detect();

        PerformanceConfig {
            thread_count: match thread_count {
                Some(t) => t,
                None => auto_config.thread_count,
            },
            max_memory_mb: match max_memory_mb {
                Some(m) => m,
                None => auto_config.max_memory_mb,
            },
            compression_level: match compression_level {
                Some(l) => l,
                None => auto_config.compression_level,
            },
            ..auto_config
        }
    }

    /// A configuration optimized for speed over compression ratio.
    pub fn fast() -> (r: PerformanceConfig)
        ensures
            r.valid(),
            r.compression_level == 6,
            r.adaptive_compression,
            r.parallel_dedup,
    {
        let auto_config = Self::auto_detect();
        let doubled = if auto_config.max_batch_size <= usize::MAX / 2 {
            auto_config.max_batch_size * 2
        } else {
            auto_config.max_batch_size
        };

        PerformanceConfig {
            compression_level: 6,
            adaptive_compression: true,
            parallel_dedup: true,
            max_batch_size: doubled,
            ..auto_config
        }
    }

    /// A balanced configuration for general use.
    pub fn balanced() -> (r: PerformanceConfig)
        ensures
            r.valid(),
            r.adaptive_compression,
    {
        Self::auto_detect()
    }

    /// A maximum-compression configuration.
    pub fn max_compression() -> (r: PerformanceConfig)
        ensures
            r.valid(),
            r.compression_level == 22,
            !r.adaptive_compression,
    {
        let auto_config = Self::auto_detect();
        let halved = if auto_config.max_batch_size >= 2 {
            auto_config.max_batch_size / 2
        } else {
            1
        };

        PerformanceConfig {
            compression_level: 22,
            adaptive_compression: false,
            max_batch_size: halved,
            ..auto_config
        }
    }

    /// The adaptive compression level for an input of `file_size` bytes.
    pub fn get_adaptive_compression_level(&self, file_size: usize) -> (r: i32)
        requires
            self.valid(),
        ensures
            r == self.spec_adaptive_level(file_size),
            1 <= r <= 22,
    {
        if !self.adaptive_compression {
            return self.compression_level;
        }

        if file_size <= 1048576 {
            self.compression_level
        } else if file_size <= 10485760 {
            if self.compression_level - 2 >= 6 {
                self.compression_level - 2
            } else {
                6
            }
        } else if file_size <= 104857600 {
            if self.compression_level - 4 >= 6 {
                self.compression_level - 4
            } else {
                6
            }
        } else {
            6
        }
    }

    /// The chunk size for splitting `total_size` bytes into parallel
    /// compression tasks: two chunks per thread, held within a factor of
    /// four of the configured chunk size, and never above the input size.
    pub fn get_optimal_chunk_size(&self, total_size: usize) -> (r: usize)
        requires
            self.valid(),
        ensures
            total_size < self.chunk_size ==> r == total_size,
            total_size >= self.chunk_size && 2 * self.thread_count <= usize::MAX && 4
                * self.chunk_size <= usize::MAX ==> r == {
                let calculated = total_size as int / (2 * self.thread_count);
                let lower = self.chunk_size as int / 4;
                let upper = 4 * self.chunk_size as int;
                if calculated < lower {
                    lower
                } else if calculated > upper {
                    upper
                } else {
                    calculated
                }
            },
            total_size >= self.chunk_size ==> r >= self.chunk_size / 4,
            total_size >= self.chunk_size ==> r > 0,
    {
        let base_chunk_size = self.chunk_size;

        if total_size < base_chunk_size {
            return total_size;
        }

        // Two chunks per thread gives better load balancing.
        let calculated_chunk_size = match self.thread_count.checked_mul(2) {
            Some(optimal_chunks) => total_size / optimal_chunks,
            None => 0,
        };
        let lower = base_chunk_size / 4;
        let upper = match base_chunk_size.checked_mul(4) {
            Some(u) => u,
            None => usize::MAX,
        };
        let clamped = if calculated_chunk_size < lower {
            lower
        } else {
            calculated_chunk_size
        };
        if clamped > upper {
            upper
        } else {
            clamped
        }
    }

    /// Whether parallel chunked processing should be used for `data_size`
    /// bytes of input.
    pub fn should_use_parallel(&self, data_size: usize) -> (r: bool)
        ensures
            r == (data_size > self.chunk_size && self.thread_count > 1),
    {
        data_size > self.chunk_size && self.thread_count > 1
    }

    /// The default amount of memory assumed available, by CPU-count band.
    fn get_available_memory_mb(cpu_count: usize) -> (r: usize)
        ensures
            r == if cpu_count <= 2 {
                2048int
            } else if cpu_count <= 4 {
                4096int
            } else if cpu_count <= 8 {
                8192int
            } else {
                16384int
            },
    {
        if cpu_count <= 2 {
            2048
        } else if cpu_count <= 4 {
            4096
        } else if cpu_count <= 8 {
            8192
        } else {
            16384
        }
    }

    /// Validate the configuration settings: `Ok` exactly on the domain
    /// that `valid` describes, and otherwise the first violated bound.
    pub fn validate(&self) -> (r: Result<(), String>)
        ensures
            r is Ok <==> self.valid(),
    {
        if self.thread_count == 0 {
            return Err(String::from_str("Thread count must be greater than 0"));
        }

        if self.max_memory_mb < 128 {
            return Err(String::from_str("Maximum memory must be at least 128MB"));
        }

        if !(1 <= self.compression_level && self.compression_level <= 22) {
            return Err(String::from_str("Compression level must be between 1 and 22"));
        }

        if self.io_buffer_size < 1024 {
            return Err(String::from_str("I/O buffer size must be at least 1KB"));
        }

        if self.chunk_size < self.io_buffer_size {
            return Err(String::from_str("Chunk size must be at least as large as I/O buffer size"));
        }

        if self.max_batch_size == 0 {
            return Err(String::from_str("Maximum batch size must be greater than 0"));
        }

        Ok(())
    }
}

/// Counters for the work the pipelines have performed.  Additions wrap on
/// overflow, as a shared counter would.
pub struct PerformanceMetrics {
    pub total_files_processed: usize,
    pub total_bytes_compressed: usize,
    pub total_compression_time_ms: usize,
    pub total_dedup_saves: usize,
    pub cache_hits: usize,
    pub cache_misses: usize,
}

impl PerformanceMetrics {
    /// Fresh counters, all zero.
    pub fn new() -> (r: PerformanceMetrics)
        ensures
            r.total_files_processed == 0,
            r.total_bytes_compressed == 0,
            r.total_compression_time_ms == 0,
            r.total_dedup_saves == 0,
            r.cache_hits == 0,
            r.cache_misses == 0,
    {
        PerformanceMetrics {
            total_files_processed: 0,
            total_bytes_compressed: 0,
            total_compression_time_ms: 0,
            total_dedup_saves: 0,
            cache_hits: 0,
            cache_misses: 0,
        }
    }

    /// Count one more processed file.
    pub fn add_file_processed(&mut self)
        ensures
            final(self).total_files_processed
                == vstd::wrapping::usize_specs::wrapping_add(old(self).total_files_processed, 1),
            final(self).total_bytes_compressed == old(self).total_bytes_compressed,
            final(self).total_compression_time_ms == old(self).total_compression_time_ms,
            final(self).total_dedup_saves == old(self).total_dedup_saves,
            final(self).cache_hits == old(self).cache_hits,
            final(self).cache_misses == old(self).cache_misses,
    {
        self.total_files_processed = self.total_files_processed.wrapping_add(1);
    }

    /// Count `bytes` more bytes handed to the compressor.
    pub fn add_bytes_compressed(&mut self, bytes: usize)
        ensures
            final(self).total_bytes_compressed
                == vstd::wrapping::usize_specs::wrapping_add(old(self).total_bytes_compressed, bytes),
            final(self).total_files_processed == old(self).total_files_processed,
            final(self).total_compression_time_ms == old(self).total_compression_time_ms,
            final(self).total_dedup_saves == old(self).total_dedup_saves,
            final(self).cache_hits == old(self).cache_hits,
            final(self).cache_misses == old(self).cache_misses,
    {
        self.total_bytes_compressed = self.total_bytes_compressed.wrapping_add(bytes);
    }

    /// Count `ms` more milliseconds spent compressing.
    pub fn add_compression_time(&mut self, ms: usize)
        ensures
            final(self).total_compression_time_ms
                == vstd::wrapping::usize_specs::wrapping_add(old(self).total_compression_time_ms, ms),
            final(self).total_files_processed == old(self).total_files_processed,
            final(self).total_bytes_compressed == old(self).total_bytes_compressed,
            final(self).total_dedup_saves == old(self).total_dedup_saves,
            final(self).cache_hits == old(self).cache_hits,
            final(self).cache_misses == old(self).cache_misses,
    {
        self.total_compression_time_ms = self.total_compression_time_ms.wrapping_add(ms);
    }

    /// Count one more blob that deduplication avoided storing.
    pub fn add_dedup_save(&mut self)
        ensures
            final(self).total_dedup_saves
                == vstd::wrapping::usize_specs::wrapping_add(old(self).total_dedup_saves, 1),
            final(self).total_files_processed == old(self).total_files_processed,
            final(self).total_bytes_compressed == old(self).total_bytes_compressed,
            final(self).total_compression_time_ms == old(self).total_compression_time_ms,
            final(self).cache_hits == old(self).cache_hits,
            final(self).cache_misses == old(self).cache_misses,
    {
        self.total_dedup_saves = self.total_dedup_saves.wrapping_add(1);
    }

    /// Count one more cache hit.
    pub fn add_cache_hit(&mut self)
        ensures
            final(self).cache_hits
                == vstd::wrapping::usize_specs::wrapping_add(old(self).cache_hits, 1),
            final(self).total_files_processed == old(self).total_files_processed,
            final(self).total_bytes_compressed == old(self).total_bytes_compressed,
            final(self).total_compression_time_ms == old(self).total_compression_time_ms,
            final(self).total_dedup_saves == old(self).total_dedup_saves,
            final(self).cache_misses == old(self).cache_misses,
    {
        self.cache_hits = self.cache_hits.wrapping_add(1);
    }

    /// Count one more cache miss.
    pub fn add_cache_miss(&mut self)
        ensures
            final(self).cache_misses
                == vstd::wrapping::usize_specs::wrapping_add(old(self).cache_misses, 1),
            final(self).total_files_processed == old(self).total_files_processed,
            final(self).total_bytes_compressed == old(self).total_bytes_compressed,
            final(self).total_compression_time_ms == old(self).total_compression_time_ms,
            final(self).total_dedup_saves == old(self).total_dedup_saves,
            final(self).cache_hits == old(self).cache_hits,
    {
        self.cache_misses = self.cache_misses.wrapping_add(1);
    }

    /// A snapshot of the counters.
    pub fn get_stats(&self) -> (r: PerformanceStats)
        ensures
            r.files_processed == self.total_files_processed,
            r.bytes_compressed == self.total_bytes_compressed,
            r.compression_time_ms == self.total_compression_time_ms,
            r.dedup_saves == self.total_dedup_saves,
            r.cache_hits == self.cache_hits,
            r.cache_misses == self.cache_misses,
    {
        PerformanceStats {
            files_processed: self.total_files_processed,
            bytes_compressed: self.total_bytes_compressed,
            compression_time_ms: self.total_compression_time_ms,
            dedup_saves: self.total_dedup_saves,
            cache_hits: self.cache_hits,
            cache_misses: self.cache_misses,
        }
    }

    /// Set every counter back to zero.
    pub fn reset(&mut self)
        ensures
            final(self).total_files_processed == 0,
            final(self).total_bytes_compressed == 0,
            final(self).total_compression_time_ms == 0,
            final(self).total_dedup_saves == 0,
            final(self).cache_hits == 0,
            final(self).cache_misses == 0,
    {
        self.total_files_processed = 0;
        self.total_bytes_compressed = 0;
        self.total_compression_time_ms = 0;
        self.total_dedup_saves = 0;
        self.cache_hits = 0;
        self.cache_misses = 0;
    }
}

/// Snapshot of performance statistics.
#[derive(Debug, Clone)]
pub struct PerformanceStats {
    pub files_processed: usize,
    pub bytes_compressed: usize,
    pub compression_time_ms: usize,
    pub dedup_saves: usize,
    pub cache_hits: usize,
    pub cache_misses: usize,
}

/// Rough difficulty of one work item, used to size worker pools.
#[derive(Debug, Clone, Copy)]
pub enum WorkComplexity {
    Low,
    Medium,
    High,
    VeryHigh,
}

/// The operation whose peak memory use is being estimated.
#[derive(Debug, Clone, Copy)]
pub enum MemoryOperation {
    Compression,
    Decompression,
    TarCreation,
    Hashing,
}

/// The worker count the original scaling calls for: the thread count
/// scaled in tenths by complexity (full, 8, 6 or 4 tenths), floored at
/// one, then capped by the number of work items and by the thread count.
/// Zero work items ask for zero workers.
pub open spec fn spec_optimal_workers(
    thread_count: usize,
    total_work_items: usize,
    work_complexity: WorkComplexity,
) -> int {
    let scaled: int = match work_complexity {
        WorkComplexity::Low => thread_count as int,
        WorkComplexity::Medium => thread_count * 8 / 10,
        WorkComplexity::High => thread_count * 6 / 10,
        WorkComplexity::VeryHigh => thread_count * 4 / 10,
    };
    let floored: int = if scaled < 1 {
        1
    } else {
        scaled
    };
    let capped: int = if floored > total_work_items {
        total_work_items as int
    } else {
        floored
    };
    if capped > thread_count {
        thread_count as int
    } else {
        capped
    }
}

/// The number of parallel workers to use for `total_work_items` items of
/// the given complexity.
pub fn calculate_optimal_workers(
    config: &PerformanceConfig,
    total_work_items: usize,
    work_complexity: WorkComplexity,
) -> (r: usize)
    requires
        config.thread_count <= usize::MAX / 10,
    ensures
        r == spec_optimal_workers(config.thread_count, total_work_items, work_complexity),
{
    let base_workers = config.thread_count;

    // Scale in tenths: full, 8/10, 6/10, 4/10 of the thread count.
    let scaled = match work_complexity {
        WorkComplexity::Low => base_workers,
        WorkComplexity::Medium => base_workers * 8 / 10,
        WorkComplexity::High => base_workers * 6 / 10,
        WorkComplexity::VeryHigh => base_workers * 4 / 10,
    };

    let floored = if scaled < 1 {
        1
    } else {
        scaled
    };
    let capped = if floored > total_work_items {
        total_work_items
    } else {
        floored
    };
    if capped > base_workers {
        base_workers
    } else {
        capped
    }
}

/// Estimated peak memory in bytes for running the given operation over
/// `data_size` bytes of input.
pub fn estimate_memory_usage(data_size: usize, operation: MemoryOperation) -> (r: usize)
    requires
        data_size <= usize::MAX / 4,
    ensures
        r == match operation {
            MemoryOperation::Compression => data_size * 2,
            MemoryOperation::Decompression => data_size * 4,
            MemoryOperation::TarCreation => data_size + data_size / 10,
            MemoryOperation::Hashing => 65536int,
        },
{
    match operation {
        // Compression typically needs twice the input size temporarily.
        MemoryOperation::Compression => data_size * 2,
        // Decompression might need four times the input in the worst case.
        MemoryOperation::Decompression => data_size * 4,
        // Tar creation needs the input plus around ten percent overhead.
        MemoryOperation::TarCreation => data_size + data_size / 10,
        // Hashing streams through a small buffer.
        MemoryOperation::Hashing => 65536,
    }
}

/// Whether an operation with the given estimated memory use fits within
/// the configured memory budget.
pub fn check_memory_limit(config: &PerformanceConfig, estimated_usage: usize) -> (r: bool)
    requires
        config.max_memory_mb <= usize::MAX / 1048576,
    ensures
        r == (estimated_usage <= config.max_memory_mb * 1048576),
{
    let limit_bytes = config.max_memory_mb * 1048576;
    estimated_usage <= limit_bytes
}

/// Relies on `num_cpus::get`: the number of available CPUs, which its
/// documentation promises is always at least one.
#[verifier::external_body]
fn cpu_count() -> (r: usize)
    ensures
        r >= 1,
{
    num_cpus::get()
}

} // verus!
