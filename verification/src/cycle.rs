use vstd::prelude::*;

use crate::log_model::LogRequest;
use crate::parse::{entry_lines, entry_matches, parse_content};
use crate::scan::ScanError;

verus! {

/// One file handed to the consumer: its path and its content when the read
/// succeeded. A file whose read failed carries nothing; that failure is
/// the per-file parse error, and the file is skipped.
#[derive(Debug)]
pub struct FileData {
    pub path: String,
    pub content: Option<String>,
}

/// What one scan worker delivered for its service: the selected files, or
/// the scan error that excludes the service from this cycle.
#[derive(Debug)]
pub struct ServiceScan {
    pub service_id: String,
    pub scan: Result<Vec<FileData>, ScanError>,
}

/// One service's batch: every entry attributed to the service this cycle,
/// persisted together.
#[derive(Debug)]
pub struct Batch {
    pub service_id: String,
    pub entries: Vec<LogRequest>,
}

/// The stripped non-empty lines one file contributes: none when its read
/// failed, its kept lines otherwise.
pub open spec fn file_lines(f: FileData) -> Seq<Seq<char>> {
    match f.content {
        Some(c) => entry_lines(c@),
        None => seq![],
    }
}

/// All lines of one service's batch, file by file in scan order.
pub open spec fn batch_lines(files: Seq<FileData>) -> Seq<Seq<char>>
    decreases files.len(),
{
    if files.len() == 0 {
        seq![]
    } else {
        batch_lines(files.drop_last()) + file_lines(files.last())
    }
}

/// Every entry of a well-built batch matches its line and carries the
/// service's id and the cycle's observation time.
pub open spec fn batch_matches(
    entries: Seq<LogRequest>,
    files: Seq<FileData>,
    service_id: Seq<char>,
    observed_at: Seq<char>,
) -> bool {
    &&& entries.len() == batch_lines(files).len()
    &&& forall|i: int|
        0 <= i < entries.len() ==> entry_matches(
            #[trigger] entries[i],
            batch_lines(files)[i],
            service_id,
            observed_at,
        )
}

/// Builds one service's batch: parses each readable file in scan order and
/// concatenates the entries, every one attributed to the service and
/// stamped with the one observation time.
pub fn build_batch(service_id: &String, files: &Vec<FileData>, observed_at: &String) -> (r: Vec<
    LogRequest,
>)
    ensures
        batch_matches(r@, files@, service_id@, observed_at@),
{
    let mut out: Vec<LogRequest> = Vec::new();
    let n: usize = files.len();
    let mut idx: usize = 0;
    proof {
        assert(files@.subrange(0, 0) =~= Seq::<FileData>::empty());
    }
    while idx < n
        invariant
            idx <= n,
            n == files@.len(),
            batch_matches(out@, files@.subrange(0, idx as int), service_id@, observed_at@),
        decreases n - idx,
    {
        let ghost prefix = files@.subrange(0, idx as int);
        let ghost out0 = out@;
        match &files[idx].content {
            Some(c) => {
                let mut parsed = parse_content(
                    c.as_str(),
                    service_id.as_str(),
                    observed_at.as_str(),
                );
                let ghost parsed_s = parsed@;
                out.append(&mut parsed);
                proof {
                    let prefix1 = files@.subrange(0, idx + 1);
                    assert(prefix1.drop_last() =~= prefix);
                    assert(prefix1.last() == files@[idx as int]);
                    let lines0 = batch_lines(prefix);
                    let flines = file_lines(files@[idx as int]);
                    assert(batch_lines(prefix1) == lines0 + flines);
                    assert(out@ == out0 + parsed_s);
                    assert forall|i: int| 0 <= i < out@.len() implies entry_matches(
                        #[trigger] out@[i],
                        batch_lines(prefix1)[i],
                        service_id@,
                        observed_at@,
                    ) by {
                        if i < out0.len() {
                            assert(out@[i] == out0[i]);
                            assert((lines0 + flines)[i] == lines0[i]);
                        } else {
                            assert(out@[i] == parsed_s[i - out0.len()]);
                            assert((lines0 + flines)[i] == flines[i - out0.len()]);
                        }
                    }
                }
            },
            None => {
                proof {
                    let prefix1 = files@.subrange(0, idx + 1);
                    assert(prefix1.drop_last() =~= prefix);
                    assert(prefix1.last() == files@[idx as int]);
                    assert(batch_lines(prefix1) =~= batch_lines(prefix));
                }
            },
        }
        idx += 1;
    }
    proof {
        assert(files@.subrange(0, n as int) =~= files@);
    }
    out
}

/// The scans that delivered a result this cycle, in delivery order.
pub open spec fn ok_scans(scans: Seq<ServiceScan>) -> Seq<ServiceScan>
    decreases scans.len(),
{
    if scans.len() == 0 {
        seq![]
    } else {
        let rest = ok_scans(scans.drop_last());
        if scans.last().scan is Ok {
            rest.push(scans.last())
        } else {
            rest
        }
    }
}

/// The files a delivered scan contributes.
pub open spec fn scan_files(s: ServiceScan) -> Seq<FileData> {
    match s.scan {
        Ok(fs) => fs@,
        Err(_) => seq![],
    }
}

/// One batch per delivered scan, attributed to its own service and filled
/// as `build_batch` fills it.
pub open spec fn cycle_matches(
    batches: Seq<Batch>,
    scans: Seq<ServiceScan>,
    observed_at: Seq<char>,
) -> bool {
    &&& batches.len() == ok_scans(scans).len()
    &&& forall|i: int|
        0 <= i < batches.len() ==> {
            let s = ok_scans(scans)[i];
            (#[trigger] batches[i]).service_id@ == s.service_id@ && batch_matches(
                batches[i].entries@,
                scan_files(s),
                s.service_id@,
                observed_at,
            )
        }
}

/// Runs the consumer side of one cycle over the scan results the workers
/// delivered: each scan that succeeded becomes exactly one batch,
/// attributed to its service; a failed scan contributes nothing and does
/// not disturb its siblings' batches.
pub fn run_cycle(scans: &Vec<ServiceScan>, observed_at: &String) -> (batches: Vec<Batch>)
    ensures
        cycle_matches(batches@, scans@, observed_at@),
{
    let mut batches: Vec<Batch> = Vec::new();
    let n: usize = scans.len();
    let mut idx: usize = 0;
    proof {
        assert(scans@.subrange(0, 0) =~= Seq::<ServiceScan>::empty());
    }
    while idx < n
        invariant
            idx <= n,
            n == scans@.len(),
            cycle_matches(batches@, scans@.subrange(0, idx as int), observed_at@),
        decreases n - idx,
    {
        let ghost prefix = scans@.subrange(0, idx as int);
        let ghost batches0 = batches@;
        match &scans[idx].scan {
            Ok(files) => {
                let entries = build_batch(&scans[idx].service_id, files, observed_at);
                batches.push(Batch { service_id: scans[idx].service_id.clone(), entries });
                proof {
                    let prefix1 = scans@.subrange(0, idx + 1);
                    assert(prefix1.drop_last() =~= prefix);
                    assert(prefix1.last() == scans@[idx as int]);
                    assert(scan_files(scans@[idx as int]) == files@);
                    assert(ok_scans(prefix1) == ok_scans(prefix).push(scans@[idx as int]));
                    assert forall|i: int| 0 <= i < batches@.len() implies {
                        let s = ok_scans(prefix1)[i];
                        (#[trigger] batches@[i]).service_id@ == s.service_id@ && batch_matches(
                            batches@[i].entries@,
                            scan_files(s),
                            s.service_id@,
                            observed_at@,
                        )
                    } by {
                        if i < batches0.len() {
                            assert(batches@[i] == batches0[i]);
                            assert(ok_scans(prefix1)[i] == ok_scans(prefix)[i]);
                        } else {
                            assert(batches@[i] == batches@.last());
                            assert(ok_scans(prefix1)[i] == scans@[idx as int]);
                        }
                    }
                }
            },
            Err(_) => {
                proof {
                    let prefix1 = scans@.subrange(0, idx + 1);
                    assert(prefix1.drop_last() =~= prefix);
                    assert(prefix1.last() == scans@[idx as int]);
                    assert(ok_scans(prefix1) =~= ok_scans(prefix));
                }
            },
        }
        idx += 1;
    }
    proof {
        assert(scans@.subrange(0, n as int) =~= scans@);
    }
    batches
}

/// A full cycle over services that all scanned successfully produces
/// exactly one batch per configured service, in delivery order: none is
/// dropped, none duplicated, and each batch is attributed to its own
/// service.
pub proof fn lemma_full_cycle_one_batch_each(scans: Seq<ServiceScan>)
    requires
        forall|i: int| 0 <= i < scans.len() ==> (#[trigger] scans[i]).scan is Ok,
    ensures
        ok_scans(scans) =~= scans,
    decreases scans.len(),
{
    if scans.len() > 0 {
        assert forall|i: int| 0 <= i < scans.drop_last().len() implies (#[trigger] scans.drop_last()[i]).scan is Ok by {
            assert(scans.drop_last()[i] == scans[i]);
        }
        lemma_full_cycle_one_batch_each(scans.drop_last());
    }
}

} // verus!
