//! Attachment records, conversation records and per-group statistics.
use vstd::prelude::*;

use crate::text::{bytes_text, format_bytes};

verus! {

/// One attachment referenced by a chat message.
#[derive(Debug, Clone)]
pub struct FileInfo {
    pub client_seq: i64,
    pub msg_random: i64,
    pub msg_id: i64,
    pub filepath: String,
    pub thumbpath: String,
    pub nt_uid: String,
    pub peer_uid: String,
    pub chat_type: i64,
    pub element_type: i64,
    pub sub_element_type: i64,
    pub file_name: String,
    pub file_size: i64,
    pub msg_time: i64,
    pub original: i64,
    /// Bytes found on disk over the original and its thumbnails; `None` when
    /// nothing was found.
    pub actual_size: Option<u64>,
}

/// Metadata of one group conversation.
#[derive(Debug, Clone)]
pub struct GroupInfo {
    pub group_id: String,
    pub group_name: String,
    pub group_remark: Option<String>,
    pub owner_uid: String,
    pub create_time: i64,
    pub max_member: i64,
    pub member_count: i64,
    pub quit_flag: i64,
}

/// Statistics over the attachments of one group.
#[derive(Debug)]
pub struct GroupStats {
    pub group_id: String,
    pub group_name: String,
    pub total_size: u64,
    pub file_count: usize,
    pub exist_count: usize,
    pub missing_count: usize,
    pub files: Vec<FileInfo>,
}

/// The resolved size of a record, zero when unresolved.
pub open spec fn size_or_zero(f: FileInfo) -> nat {
    match f.actual_size {
        Some(n) => n as nat,
        None => 0,
    }
}

/// How many records are resolved.
pub open spec fn exist_count_of(files: Seq<FileInfo>) -> nat
    decreases files.len(),
{
    if files.len() == 0 {
        0
    } else {
        exist_count_of(files.drop_last()) + if files.last().actual_size is Some {
            1nat
        } else {
            0nat
        }
    }
}

/// The sum of the resolved sizes.
pub open spec fn total_size_of(files: Seq<FileInfo>) -> nat
    decreases files.len(),
{
    if files.len() == 0 {
        0
    } else {
        total_size_of(files.drop_last()) + size_or_zero(files.last())
    }
}

proof fn lemma_exist_count_bound(files: Seq<FileInfo>)
    ensures
        exist_count_of(files) <= files.len(),
    decreases files.len(),
{
    if files.len() > 0 {
        lemma_exist_count_bound(files.drop_last());
    }
}

impl FileInfo {
    /// This record with its resolved size replaced.
    pub open spec fn resized(self, size: Option<u64>) -> FileInfo {
        FileInfo { actual_size: size, ..self }
    }

    pub fn with_actual_size(&self, size: Option<u64>) -> (r: FileInfo)
        ensures
            r == self.resized(size),
    {
        FileInfo {
            client_seq: self.client_seq,
            msg_random: self.msg_random,
            msg_id: self.msg_id,
            filepath: self.filepath.clone(),
            thumbpath: self.thumbpath.clone(),
            nt_uid: self.nt_uid.clone(),
            peer_uid: self.peer_uid.clone(),
            chat_type: self.chat_type,
            element_type: self.element_type,
            sub_element_type: self.sub_element_type,
            file_name: self.file_name.clone(),
            file_size: self.file_size,
            msg_time: self.msg_time,
            original: self.original,
            actual_size: size,
        }
    }
}

impl GroupStats {
    /// The counters agree with the records: every record is either existing
    /// or missing, and the total is the sum of the resolved sizes.
    pub open spec fn wf(&self) -> bool {
        &&& self.file_count == self.files@.len()
        &&& self.exist_count == exist_count_of(self.files@)
        &&& self.file_count == self.exist_count + self.missing_count
        &&& self.total_size == total_size_of(self.files@)
    }

    /// The statistics of `files` under the given identity.
    pub open spec fn summarizes(
        &self,
        group_id: Seq<char>,
        group_name: Seq<char>,
        files: Seq<FileInfo>,
    ) -> bool {
        &&& self.group_id@ == group_id
        &&& self.group_name@ == group_name
        &&& self.files@ == files
        &&& self.wf()
    }

    /// Counts and sums `files`; `None` exactly when the total size does not
    /// fit in 64 bits.
    pub fn from_files(group_id: String, group_name: String, files: Vec<FileInfo>) -> (r: Option<
        GroupStats,
    >)
        ensures
            r is Some <==> total_size_of(files@) <= u64::MAX,
            r matches Some(g) ==> g.summarizes(group_id@, group_name@, files@),
    {
        let mut exist: usize = 0;
        let mut total: u64 = 0;
        let mut i: usize = 0;
        while i < files.len()
            invariant
                i <= files@.len(),
                exist == exist_count_of(files@.take(i as int)),
                total == total_size_of(files@.take(i as int)),
            decreases files@.len() - i,
        {
            proof {
                assert(files@.take(i as int + 1).drop_last() =~= files@.take(i as int));
                lemma_exist_count_bound(files@.take(i as int));
            }
            match files[i].actual_size {
                Some(n) => {
                    if total > u64::MAX - n {
                        proof {
                            lemma_total_prefix_monotone(files@, i as int + 1);
                            assert(files@.take(files@.len() as int) =~= files@);
                        }
                        return None;
                    }
                    exist = exist + 1;
                    total = total + n;
                },
                None => {},
            }
            i = i + 1;
        }
        assert(files@.take(i as int) =~= files@);
        proof {
            lemma_exist_count_bound(files@);
        }
        Some(
            GroupStats {
                group_id,
                group_name,
                total_size: total,
                file_count: files.len(),
                exist_count: exist,
                missing_count: files.len() - exist,
                files,
            },
        )
    }

    /// The total size in human-readable form.
    pub fn format_size(&self) -> (r: String)
        ensures
            r@ == bytes_text(self.total_size as nat),
    {
        format_bytes(self.total_size)
    }
}

/// The total over a prefix never exceeds the total over the whole sequence.
proof fn lemma_total_prefix_monotone(files: Seq<FileInfo>, k: int)
    requires
        0 <= k <= files.len(),
    ensures
        total_size_of(files.take(k)) <= total_size_of(files),
    decreases files.len() - k,
{
    if k < files.len() {
        lemma_total_prefix_monotone(files, k + 1);
        assert(files.take(k + 1).drop_last() =~= files.take(k));
    } else {
        assert(files.take(k) =~= files);
    }
}

} // verus!
