//! Counters of the operations on remote storage.
//!
//! For every kind of file and of operation there is a gauge of the calls
//! that have begun and not ended, and a pair of counters of the bytes of the
//! calls that have begun and of those that have ended. A counter of bytes
//! does not exist until a call that tracks its size touches it. Counters
//! wrap around at the end of their range.

use vstd::prelude::*;

verus! {

/// The kinds of files kept on the remote.
#[derive(Clone, Copy, Debug, PartialEq, Eq, Structural, Hash)]
pub enum RemoteOpFileKind {
    Layer,
    Index,
}

/// The kinds of operations on the remote.
#[derive(Clone, Copy, Debug, PartialEq, Eq, Structural, Hash)]
pub enum RemoteOpKind {
    Upload,
    Download,
    Delete,
}

/// Whether the bytes of a call are counted.
#[derive(Clone, Copy, Debug, PartialEq, Eq)]
pub enum RemoteTimelineClientMetricsCallTrackSize {
    /// The bytes are not counted, for the reason given.
    DontTrackSize { reason: &'static str },
    /// The call moves this many bytes.
    Bytes(u64),
}

impl RemoteTimelineClientMetricsCallTrackSize {
    /// The bytes to count, if they are counted.
    pub open spec fn spec_bytes(&self) -> Option<u64> {
        match self {
            RemoteTimelineClientMetricsCallTrackSize::DontTrackSize { .. } => None,
            RemoteTimelineClientMetricsCallTrackSize::Bytes(n) => Some(*n),
        }
    }

    /// The bytes to count, if they are counted.
    #[verifier::when_used_as_spec(spec_bytes)]
    pub fn bytes(&self) -> (r: Option<u64>)
        ensures
            r == self.spec_bytes(),
    {
        match self {
            RemoteTimelineClientMetricsCallTrackSize::DontTrackSize { .. } => None,
            RemoteTimelineClientMetricsCallTrackSize::Bytes(n) => Some(*n),
        }
    }
}

/// The counters of one kind of file and operation.
#[derive(Clone, Copy, Debug, PartialEq, Eq)]
pub struct OpCounters {
    /// Calls that have begun and not ended.
    pub calls_unfinished: i64,
    /// Bytes of the calls that have begun, once such a call tracked its size.
    pub bytes_started: Option<u64>,
    /// Bytes of the calls that have ended, once a call that tracks its size
    /// has begun.
    pub bytes_finished: Option<u64>,
}

impl OpCounters {
    /// The counters before any call.
    pub open spec fn spec_zero() -> OpCounters {
        OpCounters { calls_unfinished: 0, bytes_started: None, bytes_finished: None }
    }

    /// A counter that may not exist yet, `n` further.
    pub open spec fn advanced(counter: Option<u64>, n: u64) -> Option<u64> {
        Some(
            match counter {
                Some(c) => c.wrapping_add(n),
                None => n,
            },
        )
    }

    /// The counters after a call has begun. The counter of finished bytes is
    /// created with the counter of started bytes, so that the two can be
    /// subtracted from the first sample on.
    pub open spec fn spec_begin(self, size: Option<u64>) -> OpCounters {
        match size {
            None => OpCounters { calls_unfinished: self.calls_unfinished.wrapping_add(1), ..self },
            Some(n) => OpCounters {
                calls_unfinished: self.calls_unfinished.wrapping_add(1),
                bytes_started: Self::advanced(self.bytes_started, n),
                bytes_finished: Self::advanced(self.bytes_finished, 0),
            },
        }
    }

    /// The counters after a call has ended.
    pub open spec fn spec_end(self, size: Option<u64>) -> OpCounters {
        match size {
            None => OpCounters { calls_unfinished: self.calls_unfinished.wrapping_sub(1), ..self },
            Some(n) => OpCounters {
                calls_unfinished: self.calls_unfinished.wrapping_sub(1),
                bytes_started: self.bytes_started,
                bytes_finished: Self::advanced(self.bytes_finished, n),
            },
        }
    }

    fn advance(counter: Option<u64>, n: u64) -> (r: Option<u64>)
        ensures
            r == Self::advanced(counter, n),
    {
        Some(
            match counter {
                Some(c) => c.wrapping_add(n),
                None => n,
            },
        )
    }

    fn begin(self, size: Option<u64>) -> (r: OpCounters)
        ensures
            r == self.spec_begin(size),
    {
        match size {
            None => OpCounters { calls_unfinished: self.calls_unfinished.wrapping_add(1), ..self },
            Some(n) => OpCounters {
                calls_unfinished: self.calls_unfinished.wrapping_add(1),
                bytes_started: Self::advance(self.bytes_started, n),
                bytes_finished: Self::advance(self.bytes_finished, 0),
            },
        }
    }

    fn end(self, size: Option<u64>) -> (r: OpCounters)
        ensures
            r == self.spec_end(size),
    {
        match size {
            None => OpCounters { calls_unfinished: self.calls_unfinished.wrapping_sub(1), ..self },
            Some(n) => OpCounters {
                calls_unfinished: self.calls_unfinished.wrapping_sub(1),
                bytes_started: self.bytes_started,
                bytes_finished: Self::advance(self.bytes_finished, n),
            },
        }
    }
}

/// The counters of one timeline's traffic with the remote.
#[derive(Clone, Copy, Debug, PartialEq, Eq)]
pub struct RemoteTimelineClientMetrics {
    /// Sum of the sizes of the files that the remote index lists.
    pub remote_physical_size: u64,
    /// Layer files downloaded on demand.
    pub ondemand_downloaded_layers: u64,
    /// Bytes of the layer files downloaded on demand.
    pub ondemand_downloaded_bytes: u64,
    pub layer_upload: OpCounters,
    pub layer_download: OpCounters,
    pub layer_delete: OpCounters,
    pub index_upload: OpCounters,
    pub index_download: OpCounters,
    pub index_delete: OpCounters,
}

impl RemoteTimelineClientMetrics {
    /// The counters of one kind of file and operation.
    pub open spec fn spec_counters(&self, file_kind: RemoteOpFileKind, op_kind: RemoteOpKind) -> OpCounters {
        match (file_kind, op_kind) {
            (RemoteOpFileKind::Layer, RemoteOpKind::Upload) => self.layer_upload,
            (RemoteOpFileKind::Layer, RemoteOpKind::Download) => self.layer_download,
            (RemoteOpFileKind::Layer, RemoteOpKind::Delete) => self.layer_delete,
            (RemoteOpFileKind::Index, RemoteOpKind::Upload) => self.index_upload,
            (RemoteOpFileKind::Index, RemoteOpKind::Download) => self.index_download,
            (RemoteOpFileKind::Index, RemoteOpKind::Delete) => self.index_delete,
        }
    }

    /// These metrics with the counters of one kind replaced.
    pub open spec fn spec_with_counters(
        self,
        file_kind: RemoteOpFileKind,
        op_kind: RemoteOpKind,
        counters: OpCounters,
    ) -> RemoteTimelineClientMetrics {
        match (file_kind, op_kind) {
            (RemoteOpFileKind::Layer, RemoteOpKind::Upload) => RemoteTimelineClientMetrics {
                layer_upload: counters,
                ..self
            },
            (RemoteOpFileKind::Layer, RemoteOpKind::Download) => RemoteTimelineClientMetrics {
                layer_download: counters,
                ..self
            },
            (RemoteOpFileKind::Layer, RemoteOpKind::Delete) => RemoteTimelineClientMetrics {
                layer_delete: counters,
                ..self
            },
            (RemoteOpFileKind::Index, RemoteOpKind::Upload) => RemoteTimelineClientMetrics {
                index_upload: counters,
                ..self
            },
            (RemoteOpFileKind::Index, RemoteOpKind::Download) => RemoteTimelineClientMetrics {
                index_download: counters,
                ..self
            },
            (RemoteOpFileKind::Index, RemoteOpKind::Delete) => RemoteTimelineClientMetrics {
                index_delete: counters,
                ..self
            },
        }
    }

    /// The metrics after a call has begun.
    pub open spec fn spec_call_begin(
        self,
        file_kind: RemoteOpFileKind,
        op_kind: RemoteOpKind,
        size: Option<u64>,
    ) -> RemoteTimelineClientMetrics {
        self.spec_with_counters(
            file_kind,
            op_kind,
            self.spec_counters(file_kind, op_kind).spec_begin(size),
        )
    }

    /// The metrics after a call has ended.
    pub open spec fn spec_call_end(
        self,
        file_kind: RemoteOpFileKind,
        op_kind: RemoteOpKind,
        size: Option<u64>,
    ) -> RemoteTimelineClientMetrics {
        self.spec_with_counters(
            file_kind,
            op_kind,
            self.spec_counters(file_kind, op_kind).spec_end(size),
        )
    }

    /// The metrics before any call.
    pub open spec fn spec_new() -> RemoteTimelineClientMetrics {
        RemoteTimelineClientMetrics {
            remote_physical_size: 0,
            ondemand_downloaded_layers: 0,
            ondemand_downloaded_bytes: 0,
            layer_upload: OpCounters::spec_zero(),
            layer_download: OpCounters::spec_zero(),
            layer_delete: OpCounters::spec_zero(),
            index_upload: OpCounters::spec_zero(),
            index_download: OpCounters::spec_zero(),
            index_delete: OpCounters::spec_zero(),
        }
    }

    /// The metrics before any call.
    #[verifier::when_used_as_spec(spec_new)]
    pub fn new() -> (r: RemoteTimelineClientMetrics)
        ensures
            r == Self::spec_new(),
    {
        let zero = OpCounters { calls_unfinished: 0, bytes_started: None, bytes_finished: None };
        RemoteTimelineClientMetrics {
            remote_physical_size: 0,
            ondemand_downloaded_layers: 0,
            ondemand_downloaded_bytes: 0,
            layer_upload: zero,
            layer_download: zero,
            layer_delete: zero,
            index_upload: zero,
            index_download: zero,
            index_delete: zero,
        }
    }

    /// The counters of one kind of file and operation.
    #[verifier::when_used_as_spec(spec_counters)]
    pub fn counters(&self, file_kind: RemoteOpFileKind, op_kind: RemoteOpKind) -> (r: OpCounters)
        ensures
            r == self.spec_counters(file_kind, op_kind),
    {
        match (file_kind, op_kind) {
            (RemoteOpFileKind::Layer, RemoteOpKind::Upload) => self.layer_upload,
            (RemoteOpFileKind::Layer, RemoteOpKind::Download) => self.layer_download,
            (RemoteOpFileKind::Layer, RemoteOpKind::Delete) => self.layer_delete,
            (RemoteOpFileKind::Index, RemoteOpKind::Upload) => self.index_upload,
            (RemoteOpFileKind::Index, RemoteOpKind::Download) => self.index_download,
            (RemoteOpFileKind::Index, RemoteOpKind::Delete) => self.index_delete,
        }
    }

    fn set_counters(&mut self, file_kind: RemoteOpFileKind, op_kind: RemoteOpKind, counters: OpCounters)
        ensures
            *final(self) == old(self).spec_with_counters(file_kind, op_kind, counters),
    {
        match (file_kind, op_kind) {
            (RemoteOpFileKind::Layer, RemoteOpKind::Upload) => {
                self.layer_upload = counters;
            },
            (RemoteOpFileKind::Layer, RemoteOpKind::Download) => {
                self.layer_download = counters;
            },
            (RemoteOpFileKind::Layer, RemoteOpKind::Delete) => {
                self.layer_delete = counters;
            },
            (RemoteOpFileKind::Index, RemoteOpKind::Upload) => {
                self.index_upload = counters;
            },
            (RemoteOpFileKind::Index, RemoteOpKind::Download) => {
                self.index_download = counters;
            },
            (RemoteOpFileKind::Index, RemoteOpKind::Delete) => {
                self.index_delete = counters;
            },
        }
    }

    /// Counts a call that begins: one more unfinished call of its kind, and
    /// its bytes among the bytes started if it tracks its size.
    pub fn call_begin(
        &mut self,
        file_kind: RemoteOpFileKind,
        op_kind: RemoteOpKind,
        size: RemoteTimelineClientMetricsCallTrackSize,
    )
        ensures
            *final(self) == old(self).spec_call_begin(file_kind, op_kind, size.spec_bytes()),
    {
        let c = self.counters(file_kind, op_kind).begin(size.bytes());
        self.set_counters(file_kind, op_kind, c);
    }

    /// Counts a call that ends: one unfinished call of its kind less, and its
    /// bytes among the bytes finished if it tracks its size.
    pub fn call_end(
        &mut self,
        file_kind: RemoteOpFileKind,
        op_kind: RemoteOpKind,
        size: RemoteTimelineClientMetricsCallTrackSize,
    )
        ensures
            *final(self) == old(self).spec_call_end(file_kind, op_kind, size.spec_bytes()),
    {
        let c = self.counters(file_kind, op_kind).end(size.bytes());
        self.set_counters(file_kind, op_kind, c);
    }

    /// The bytes of the calls of one kind that have begun, if any of them
    /// tracked its size.
    pub fn get_bytes_started_counter_value(
        &self,
        file_kind: RemoteOpFileKind,
        op_kind: RemoteOpKind,
    ) -> (r: Option<u64>)
        ensures
            r == self.spec_counters(file_kind, op_kind).bytes_started,
    {
        self.counters(file_kind, op_kind).bytes_started
    }

    /// The bytes of the calls of one kind that have ended, if any call of
    /// the kind tracked its size.
    pub fn get_bytes_finished_counter_value(
        &self,
        file_kind: RemoteOpFileKind,
        op_kind: RemoteOpKind,
    ) -> (r: Option<u64>)
        ensures
            r == self.spec_counters(file_kind, op_kind).bytes_finished,
    {
        self.counters(file_kind, op_kind).bytes_finished
    }
}

} // verus!
