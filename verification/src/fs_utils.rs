//! Where the application keeps its files, and how a free file name for a
//! download is chosen. Paths are `/`-separated texts.
use vstd::prelude::*;
use crate::numbers::{decimal, decimal_chars};
use crate::string_utils::{join, path_join};
use crate::text::{
    before_first, chars_of, find_char, lemma_first_index_is, lemma_first_index_none, same_chars,
    split_chars, split_on, string_from, sub_chars, views,
};
use crate::types::{category_name, LogCategory};

verus! {

/// The application's name, used for its folders.
pub open spec fn app_name() -> Seq<char> {
    "M3U8Downloader"@
}

/// The application's name.
pub fn app_name_str() -> (r: &'static str)
    ensures
        r@ == app_name(),
{
    "M3U8Downloader"
}

// ------------------------------------------------------------ folders

/// Text of `a` followed by `b`.
fn cat(a: &str, b: &str) -> (r: String)
    ensures
        r@ == a@ + b@,
{
    String::from_str(a).concat(b)
}

/// The application's folder under the system's temporary folder.
pub fn get_env_temp_dir(temp_dir: &str) -> (r: String)
    ensures
        r@ == path_join(temp_dir@, app_name()),
{
    join(temp_dir, app_name_str())
}

/// The application's data folder, from the per-user data folder that the
/// platform gives for it, if any.
pub fn get_data_root_dir(project_data_dir: Option<String>) -> (r: Result<String, String>)
    ensures
        match project_data_dir {
            Some(d) => r == Ok::<String, String>(d),
            None => r matches Err(e) && e@ == "Could not resolve app directory"@,
        },
{
    match project_data_dir {
        Some(d) => Ok(d),
        None => Err(String::from_str("Could not resolve app directory")),
    }
}

/// The folder of a job's logs and playlist copies.
pub open spec fn job_dir_of(root: Seq<char>, job_id: Seq<char>) -> Seq<char> {
    path_join(path_join(root, "jobs"@), job_id)
}

/// The folder of a job's logs and playlist copies, under the data folder.
pub fn get_job_dir(root: &str, job_id: &str) -> (r: String)
    ensures
        r@ == job_dir_of(root@, job_id@),
{
    let jobs = join(root, "jobs");
    join(jobs.as_str(), job_id)
}

/// The folder of the application log.
pub fn get_logs_dir(root: &str) -> (r: String)
    ensures
        r@ == path_join(root@, "logs"@),
{
    join(root, "logs")
}

/// The file that holds the list of jobs.
pub fn get_jobs_db_file_path(root: &str) -> (r: String)
    ensures
        r@ == path_join(root@, "jobs.json"@),
{
    join(root, "jobs.json")
}

/// The log file of one category of a job: `<job>_<category>.log` in the
/// job's folder.
pub fn get_job_log_file_path(root: &str, job_id: &str, log_category: LogCategory) -> (r: String)
    ensures
        r@ == path_join(
            job_dir_of(root@, job_id@),
            job_id@ + "_"@ + category_name(log_category) + ".log"@,
        ),
{
    let dir = get_job_dir(root, job_id);
    let name = cat(cat(cat(job_id, "_").as_str(), log_category.as_str()).as_str(), ".log");
    join(dir.as_str(), name.as_str())
}

/// The copy of a job's playlist: `<job>.m3u8` in the job's folder.
pub fn get_job_m3u8_backup_file_path(root: &str, job_id: &str) -> (r: String)
    ensures
        r@ == path_join(job_dir_of(root@, job_id@), job_id@ + ".m3u8"@),
{
    let dir = get_job_dir(root, job_id);
    let name = cat(job_id, ".m3u8");
    join(dir.as_str(), name.as_str())
}

/// The settings file, in the per-user configuration folder.
pub fn get_settings_file_path(config_dir: &str) -> (r: String)
    ensures
        r@ == path_join(config_dir@, "settings.json"@),
{
    join(config_dir, "settings.json")
}

/// The folder a job's segments are downloaded to, under the application's
/// temporary folder.
pub fn get_download_dir(temp_dir: &str, job_id: &str) -> (r: String)
    ensures
        r@ == path_join(path_join(temp_dir@, app_name()), job_id@),
{
    let base = get_env_temp_dir(temp_dir);
    join(base.as_str(), job_id)
}

// ------------------------------------------------------------ path parts

/// The named parts of a path: its pieces between `/`, without empty
/// pieces and `.`.
pub open spec fn path_parts(p: Seq<char>) -> Seq<Seq<char>> {
    split_on(p, '/').filter(|c: Seq<char>| c.len() > 0 && c != seq!['.'])
}

/// The path starts at the root.
pub open spec fn is_rooted(p: Seq<char>) -> bool {
    p.len() > 0 && p[0] == '/'
}

/// The path starts with a `.` part (kept by `Path::components` only there).
pub open spec fn starts_at_current(p: Seq<char>) -> bool {
    !is_rooted(p) && p.len() > 0 && p[0] == '.' && (p.len() == 1 || p[1] == '/')
}

/// Two paths name the same place as `Path`'s equality sees it: the same
/// components (root, leading `.`, named parts).
pub open spec fn same_path(p: Seq<char>, q: Seq<char>) -> bool {
    is_rooted(p) == is_rooted(q) && starts_at_current(p) == starts_at_current(q) && path_parts(p)
        == path_parts(q)
}

/// The last part of a path (`Path::file_name`): none when the path has no
/// named part or ends in `..`.
pub open spec fn file_name_of(p: Seq<char>) -> Option<Seq<char>> {
    let parts = path_parts(p);
    if parts.len() == 0 || parts.last() == seq!['.', '.'] {
        None
    } else {
        Some(parts.last())
    }
}

/// The position of the last `.` in `s`, if any.
pub open spec fn last_dot(s: Seq<char>) -> Option<int>
    decreases s.len(),
{
    if s.len() == 0 {
        None
    } else if s.last() == '.' {
        Some(s.len() - 1)
    } else {
        last_dot(s.drop_last())
    }
}

/// A file name without its extension (`Path::file_stem`): the part before
/// the last `.`, unless there is none or it is the leading one.
pub open spec fn stem_of(name: Seq<char>) -> Seq<char> {
    match last_dot(name) {
        Some(i) => if i == 0 {
            name
        } else {
            name.take(i)
        },
        None => name,
    }
}

/// `s` ends in `.mp4`, letters in either case.
pub open spec fn ends_in_mp4(s: Seq<char>) -> bool {
    s.len() >= 4 && s[s.len() - 4] == '.' && (s[s.len() - 3] == 'm' || s[s.len() - 3] == 'M') && (
    s[s.len() - 2] == 'p' || s[s.len() - 2] == 'P') && s[s.len() - 1] == '4'
}

/// The URL (its query left out) ends in `/`: it names a folder, not a file.
pub open spec fn ends_in_slash(path: Seq<char>) -> bool {
    path.len() > 0 && path.last() == '/'
}

/// The base of a download's file name: the stem of the URL's last path
/// part, the query left out; `video` when the URL ends in `/` or has no
/// such part; without a trailing `.mp4`.
pub open spec fn name_stem_of_url(url: Seq<char>) -> Seq<char> {
    let path = before_first(url, '?');
    let stem = if ends_in_slash(path) {
        "video"@
    } else {
        match file_name_of(path) {
            Some(n) => stem_of(n),
            None => "video"@,
        }
    };
    if ends_in_mp4(stem) {
        stem.take(stem.len() - 4)
    } else {
        stem
    }
}

/// The `counter`-th candidate file name: `<stem>.mp4`, then
/// `<stem> (1).mp4`, `<stem> (2).mp4`, ...
pub open spec fn candidate_name(stem: Seq<char>, counter: nat) -> Seq<char> {
    if counter == 0 {
        stem + ".mp4"@
    } else {
        stem + " ("@ + decimal(counter) + ").mp4"@
    }
}

/// Some active job already writes to `path`.
pub open spec fn path_claimed(active: Seq<Seq<char>>, path: Seq<char>) -> bool {
    exists|k: int| 0 <= k < active.len() && same_path(#[trigger] active[k], path)
}

/// The folder a download goes to: the one given, or when none is given the
/// system's download folder, or the current folder.
pub open spec fn target_folder_of(folder: Seq<char>, os_download_dir: Option<Seq<char>>) -> Seq<char> {
    if folder.len() == 0 {
        match os_download_dir {
            Some(d) => d,
            None => seq!['.'],
        }
    } else {
        folder
    }
}

/// The folder a download goes to; see `target_folder_of`.
pub fn resolve_target_folder(folder_path: &str, os_download_dir: Option<String>) -> (r: String)
    ensures
        r@ == target_folder_of(
            folder_path@,
            match os_download_dir {
                Some(d) => Some(d@),
                None => None,
            },
        ),
{
    let f = chars_of(folder_path);
    if f.len() == 0 {
        match os_download_dir {
            Some(d) => d,
            None => string_from(&vec!['.']),
        }
    } else {
        String::from_str(folder_path)
    }
}

fn path_parts_exec(p: &[char]) -> (r: Vec<Vec<char>>)
    ensures
        views(r@) == path_parts(p@),
{
    let pieces = split_chars(p, '/');
    let ghost ps = views(pieces@);
    let ghost keep = |c: Seq<char>| c.len() > 0 && c != seq!['.'];
    let dot = vec!['.'];
    let mut r: Vec<Vec<char>> = Vec::new();
    let mut i: usize = 0;
    assert(ps.take(0).filter(keep) =~= Seq::<Seq<char>>::empty()) by {
        reveal(Seq::filter);
    }
    while i < pieces.len()
        invariant
            i <= pieces@.len(),
            ps == views(pieces@),
            keep == (|c: Seq<char>| c.len() > 0 && c != seq!['.']),
            dot@ == seq!['.'],
            views(r@) == ps.take(i as int).filter(keep),
        decreases pieces@.len() - i,
    {
        proof {
            assert(ps.take(i + 1) =~= ps.take(i as int).push(ps[i as int]));
            ps.take(i as int).lemma_filter_push(ps[i as int], keep);
        }
        let piece = &pieces[i];
        if piece.len() > 0 && !same_chars(piece.as_slice(), dot.as_slice()) {
            let ghost before = views(r@);
            r.push(sub_chars(piece.as_slice(), 0, piece.len()));
            assert(piece@.subrange(0, piece@.len() as int) =~= piece@);
            assert(views(r@) =~= before.push(piece@));
        }
        i = i + 1;
    }
    assert(ps.take(pieces@.len() as int) =~= ps);
    r
}

fn is_rooted_exec(p: &[char]) -> (r: bool)
    ensures
        r == is_rooted(p@),
{
    p.len() > 0 && p[0] == '/'
}

fn starts_at_current_exec(p: &[char]) -> (r: bool)
    ensures
        r == starts_at_current(p@),
{
    !is_rooted_exec(p) && p.len() > 0 && p[0] == '.' && (p.len() == 1 || p[1] == '/')
}

fn same_parts(a: &Vec<Vec<char>>, b: &Vec<Vec<char>>) -> (r: bool)
    ensures
        r == (views(a@) == views(b@)),
{
    if a.len() != b.len() {
        assert(views(a@).len() != views(b@).len());
        return false;
    }
    let mut i: usize = 0;
    while i < a.len()
        invariant
            a@.len() == b@.len(),
            i <= a@.len(),
            forall|k: int| 0 <= k < i ==> views(a@)[k] == views(b@)[k],
        decreases a@.len() - i,
    {
        if !same_chars(a[i].as_slice(), b[i].as_slice()) {
            assert(views(a@)[i as int] != views(b@)[i as int]);
            return false;
        }
        i = i + 1;
    }
    assert(views(a@) =~= views(b@));
    true
}

/// Whether two paths name the same place; see `same_path`.
pub fn paths_equal(p: &str, q: &str) -> (r: bool)
    ensures
        r == same_path(p@, q@),
{
    let a = chars_of(p);
    let b = chars_of(q);
    let pa = path_parts_exec(a.as_slice());
    let pb = path_parts_exec(b.as_slice());
    is_rooted_exec(a.as_slice()) == is_rooted_exec(b.as_slice()) && starts_at_current_exec(
        a.as_slice(),
    ) == starts_at_current_exec(b.as_slice()) && same_parts(&pa, &pb)
}

/// The position of the last `.` in `s`.
pub fn last_dot_position(s: &[char]) -> (r: Option<usize>)
    ensures
        match r {
            Some(i) => last_dot(s@) == Some(i as int) && i < s@.len(),
            None => last_dot(s@) is None,
        },
{
    let mut j = s.len();
    assert(s@.take(j as int) =~= s@);
    while j > 0
        invariant
            j <= s@.len(),
            last_dot(s@) == last_dot(s@.take(j as int)),
        decreases j,
    {
        assert(s@.take(j as int).drop_last() =~= s@.take(j - 1));
        if s[j - 1] == '.' {
            return Some(j - 1);
        }
        j = j - 1;
    }
    None
}

/// The base of a download's file name taken from its URL; see
/// `name_stem_of_url`.
pub fn file_stem_from_url(url: &str) -> (r: String)
    ensures
        r@ == name_stem_of_url(url@),
{
    let u = chars_of(url);
    let end = match find_char(u.as_slice(), '?', 0) {
        Some(q) => {
            proof {
                lemma_first_index_is(u@, '?', q as int);
            }
            q
        },
        None => {
            proof {
                lemma_first_index_none(u@, '?');
            }
            u.len()
        },
    };
    let path = sub_chars(u.as_slice(), 0, end);
    assert(path@ =~= before_first(url@, '?'));
    let parts = path_parts_exec(path.as_slice());
    let dotdot = vec!['.', '.'];
    let slash_end = path.len() > 0 && path[path.len() - 1] == '/';
    let stem: Vec<char> = if slash_end || parts.len() == 0 || same_chars(
        parts[parts.len() - 1].as_slice(),
        dotdot.as_slice(),
    ) {
        let v = chars_of("video");
        v
    } else {
        let name = &parts[parts.len() - 1];
        assert(views(parts@).last() == name@);
        match last_dot_position(name.as_slice()) {
            Some(i) => if i == 0 {
                sub_chars(name.as_slice(), 0, name.len())
            } else {
                sub_chars(name.as_slice(), 0, i)
            },
            None => sub_chars(name.as_slice(), 0, name.len()),
        }
    };
    proof {
        if parts@.len() > 0 {
            assert(views(parts@).last() == parts@[parts@.len() - 1]@);
            let n = parts@[parts@.len() - 1]@;
            assert(n.subrange(0, n.len() as int) =~= n);
        }
    }
    let n = stem.len();
    let cut = n >= 4 && stem[n - 4] == '.' && (stem[n - 3] == 'm' || stem[n - 3] == 'M') && (
    stem[n - 2] == 'p' || stem[n - 2] == 'P') && stem[n - 1] == '4';
    if cut {
        let s = sub_chars(stem.as_slice(), 0, n - 4);
        string_from(&s)
    } else {
        string_from(&stem)
    }
}

/// The `counter`-th candidate file name for a stem; see `candidate_name`.
pub fn candidate_filename(stem: &str, counter: u32) -> (r: String)
    ensures
        r@ == candidate_name(stem@, counter as nat),
{
    if counter == 0 {
        cat(stem, ".mp4")
    } else {
        let d = decimal_chars(counter as u64);
        let ds = string_from(&d);
        cat(cat(cat(stem, " (").as_str(), ds.as_str()).as_str(), ").mp4")
    }
}

/// Whether some active job writes to `path`.
pub fn is_path_claimed(active_paths: &Vec<String>, path: &str) -> (r: bool)
    ensures
        r == path_claimed(active_paths@.map_values(|s: String| s@), path@),
{
    let ghost act = active_paths@.map_values(|s: String| s@);
    let mut i: usize = 0;
    while i < active_paths.len()
        invariant
            i <= active_paths@.len(),
            act == active_paths@.map_values(|s: String| s@),
            forall|k: int| 0 <= k < i ==> !same_path(#[trigger] act[k], path@),
        decreases active_paths@.len() - i,
    {
        if paths_equal(active_paths[i].as_str(), path) {
            assert(same_path(act[i as int], path@));
            return true;
        }
        i = i + 1;
    }
    false
}

/// One step of the search for a free file name.
pub enum NameSearch {
    /// This candidate is free: use it.
    Found(String),
    /// This candidate is taken: try the next counter.
    Next(u32),
}

/// Candidate `counter` is free: no file is there and no active job writes
/// there.
pub open spec fn candidate_free(
    folder: Seq<char>,
    stem: Seq<char>,
    counter: nat,
    exists_on_disk: bool,
    active: Seq<Seq<char>>,
) -> bool {
    !exists_on_disk && !path_claimed(active, path_join(folder, candidate_name(stem, counter)))
}

/// The path of the `counter`-th candidate in `folder`, whose existence on
/// disk decides the next step.
pub fn candidate_path(folder: &str, stem: &str, counter: u32) -> (r: String)
    ensures
        r@ == path_join(folder@, candidate_name(stem@, counter as nat)),
{
    let name = candidate_filename(stem, counter);
    join(folder, name.as_str())
}

/// Decides on candidate `counter` of the search for a free file name in
/// `folder`, given whether a file is there: the candidate when it is free,
/// else the next counter. The search starts at counter 0.
pub fn resolve_unique_filename_step(
    folder: &str,
    stem: &str,
    counter: u32,
    exists_on_disk: bool,
    active_paths: &Vec<String>,
) -> (r: NameSearch)
    requires
        counter < i32::MAX,
    ensures
        match r {
            NameSearch::Found(name) => candidate_free(
                folder@,
                stem@,
                counter as nat,
                exists_on_disk,
                active_paths@.map_values(|s: String| s@),
            ) && name@ == candidate_name(stem@, counter as nat),
            NameSearch::Next(c) => !candidate_free(
                folder@,
                stem@,
                counter as nat,
                exists_on_disk,
                active_paths@.map_values(|s: String| s@),
            ) && c == counter + 1,
        },
{
    let full = candidate_path(folder, stem, counter);
    let claimed = is_path_claimed(active_paths, full.as_str());
    if !exists_on_disk && !claimed {
        NameSearch::Found(candidate_filename(stem, counter))
    } else {
        NameSearch::Next(counter + 1)
    }
}

/// The last part of a path; see `file_name_of`.
pub fn last_name_part(p: &str) -> (r: Option<Vec<char>>)
    ensures
        match r {
            Some(n) => file_name_of(p@) == Some(n@),
            None => file_name_of(p@) is None,
        },
{
    let cs = chars_of(p);
    let parts = path_parts_exec(cs.as_slice());
    let dotdot = vec!['.', '.'];
    if parts.len() == 0 || same_chars(parts[parts.len() - 1].as_slice(), dotdot.as_slice()) {
        None
    } else {
        let last = &parts[parts.len() - 1];
        assert(views(parts@).last() == last@);
        Some(sub_chars(last.as_slice(), 0, last.len()))
    }
}

} // verus!
