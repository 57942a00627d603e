//! Saving files safely: the name of a backup copy, the header put in front of
//! a saved configuration, and the plan of file operations for a save.
use vstd::prelude::*;
use crate::error::AppError;
use crate::error::join_text;
use crate::jsonc::has_no_comment_markers;
use crate::jsonc::lemma_line_comment_keeps_newline;
use crate::jsonc::lemma_strip_without_markers;
use crate::jsonc::stripped;
use crate::text::chars_of;
use crate::text::text_of_range;

verus! {

/// The character of the decimal digit `d`.
pub open spec fn digit_char(d: nat) -> char {
    seq!['0', '1', '2', '3', '4', '5', '6', '7', '8', '9'][d as int % 10]
}

/// The decimal digits of `n`, most significant first, without leading zeros.
pub open spec fn decimal(n: nat) -> Seq<char>
    decreases n,
{
    if n < 10 {
        seq![digit_char(n)]
    } else {
        decimal(n / 10).push(digit_char(n % 10))
    }
}

/// The position of the last `c` in `s[0..end]`, or -1.
pub open spec fn last_before(s: Seq<char>, c: char, end: int) -> int
    decreases end,
{
    if end <= 0 || end > s.len() {
        -1
    } else if s[end - 1] == c {
        end - 1
    } else {
        last_before(s, c, end - 1)
    }
}

/// The position of the dot that starts the file name's extension, if it has one:
/// the last dot of the name, not being its first character.
pub open spec fn extension_dot(path: Seq<char>) -> Option<int> {
    let dot = last_before(path, '.', path.len() as int);
    let slash = last_before(path, '/', path.len() as int);
    if dot > slash + 1 {
        Some(dot)
    } else {
        None
    }
}

/// The name of the backup of `path` made at `timestamp`: `.backup.` and the
/// timestamp go between the file name and its extension, or at the end.
pub open spec fn backup_name(path: Seq<char>, timestamp: nat) -> Seq<char> {
    let mark = ".backup."@ + decimal(timestamp);
    match extension_dot(path) {
        Some(d) => path.subrange(0, d) + mark + path.subrange(d, path.len() as int),
        None => path + mark,
    }
}

/// The decimal digits of `n`.
pub fn decimal_text(n: u64) -> (r: String)
    ensures
        r@ == decimal(n as nat),
{
    let table = ['0', '1', '2', '3', '4', '5', '6', '7', '8', '9'];
    assert(table@ =~= seq!['0', '1', '2', '3', '4', '5', '6', '7', '8', '9']);
    let mut low: Vec<char> = Vec::new();
    let mut m: u64 = n;
    while m >= 10
        invariant
            table@ == seq!['0', '1', '2', '3', '4', '5', '6', '7', '8', '9'],
            decimal(m as nat) + low@ == decimal(n as nat),
        decreases m,
    {
        let d = (m % 10) as usize;
        let ghost old_low = low@;
        let ghost old_m = m;
        low.insert(0, table[d]);
        m = m / 10;
        proof {
            assert(decimal(old_m as nat) == decimal(m as nat).push(digit_char((old_m % 10) as nat)));
            assert(low@ =~= seq![digit_char((old_m % 10) as nat)] + old_low);
            assert(decimal(m as nat) + low@ =~= decimal(old_m as nat) + old_low);
        }
    }
    let ghost old_low = low@;
    low.insert(0, table[m as usize]);
    assert(low@ =~= decimal(n as nat)) by {
        assert(decimal(m as nat) == seq![digit_char(m as nat)]);
        assert(low@ =~= seq![digit_char(m as nat)] + old_low);
    }
    text_of_range(&low, 0, low.len())
}

/// The position of the last `c` in `v`, if any.
fn last_position(v: &Vec<char>, c: char) -> (r: Option<usize>)
    ensures
        r is None ==> last_before(v@, c, v@.len() as int) == -1,
        r is Some ==> r->0 < v@.len() && r->0 as int == last_before(v@, c, v@.len() as int),
{
    let mut i = v.len();
    while i > 0 && v[i - 1] != c
        invariant
            i <= v.len(),
            last_before(v@, c, i as int) == last_before(v@, c, v@.len() as int),
        decreases i,
    {
        i = i - 1;
    }
    if i == 0 {
        None
    } else {
        Some(i - 1)
    }
}

/// The path of the backup of `path` made at `timestamp` (see `backup_name`).
pub fn backup_path_for(path: &str, timestamp: u64) -> (r: String)
    ensures
        r@ == backup_name(path@, timestamp as nat),
{
    let v = chars_of(path);
    let n = v.len();
    let digits = decimal_text(timestamp);
    let mark = join_text(".backup.", digits.as_str());
    let dot = last_position(&v, '.');
    let slash = last_position(&v, '/');
    let ext_at: Option<usize> = match dot {
        Some(d) => match slash {
            Some(sl) => if sl < d && d - sl >= 2 { Some(d) } else { None },
            None => if d > 0 { Some(d) } else { None },
        },
        None => None,
    };
    assert(ext_at is Some <==> extension_dot(path@) is Some);
    assert(ext_at is Some ==> ext_at->0 as int == extension_dot(path@)->0);
    match ext_at {
        Some(d) => {
            let stem = text_of_range(&v, 0, d);
            let ext = text_of_range(&v, d, n);
            let named = join_text(stem.as_str(), mark.as_str());
            join_text(named.as_str(), ext.as_str())
        },
        None => join_text(path, mark.as_str()),
    }
}

/// The comment lines put in front of a configuration when it is saved.
pub open spec fn config_header() -> Seq<char> {
    "// Waybar Configuration\n// Saved by the configuration editor\n"@
}

/// `content` with the configuration header in front of it.
pub fn add_config_comments(content: &str) -> (r: String)
    ensures
        r@ == config_header() + content@,
{
    join_text("// Waybar Configuration\n// Saved by the configuration editor\n", content)
}

/// Stripping a saved configuration gives back the stripped content after the
/// header's two newlines; content without comments comes back as it was.
pub proof fn lemma_saved_config_strips_to_content(c: Seq<char>)
    ensures
        stripped(config_header() + c) == seq!['\n', '\n'] + stripped(c),
        has_no_comment_markers(c) ==> stripped(config_header() + c) == seq!['\n', '\n'] + c,
{
    reveal_strlit("// Waybar Configuration\n// Saved by the configuration editor\n");
    let h = config_header();
    let l1 = h.subrange(2, 23);
    let l2 = h.subrange(26, 60);
    assert(h.len() == 61);
    assert(h =~= seq!['/', '/'] + l1 + seq!['\n'] + (seq!['/', '/'] + l2 + seq!['\n']));
    assert forall|k: int| 0 <= k < l1.len() implies l1[k] != '\n' by {
        assert(l1[k] == h[k + 2]);
    }
    assert forall|k: int| 0 <= k < l2.len() implies l2[k] != '\n' by {
        assert(l2[k] == h[k + 26]);
    }
    let rest = seq!['/', '/'] + l2 + seq!['\n'] + c;
    assert(h + c =~= seq!['/', '/'] + l1 + seq!['\n'] + rest);
    lemma_line_comment_keeps_newline(l1, rest);
    lemma_line_comment_keeps_newline(l2, c);
    assert(seq!['\n'] + (seq!['\n'] + stripped(c)) =~= seq!['\n', '\n'] + stripped(c));
    if has_no_comment_markers(c) {
        lemma_strip_without_markers(c);
    }
}

/// One file operation of a save.
#[derive(Debug, Clone)]
pub enum WriteStep {
    /// Copy the file at `from` to `to`.
    CopyFile { from: String, to: String },
    /// Replace whatever is at `path` by `content`.
    WriteFile { path: String, content: String },
}

/// A file operation over paths and contents.
pub enum FileOp {
    Copy(Seq<char>, Seq<char>),
    Write(Seq<char>, Seq<char>),
}

impl View for WriteStep {
    type V = FileOp;

    open spec fn view(&self) -> FileOp {
        match self {
            WriteStep::CopyFile { from, to } => FileOp::Copy(from@, to@),
            WriteStep::WriteFile { path, content } => FileOp::Write(path@, content@),
        }
    }
}

/// Files on disk: the content held at each path.
pub type FileTree = Map<Seq<char>, Seq<char>>;

/// The files after `op`, or `None` when it fails (a copy from a missing file).
pub open spec fn apply_op(fs: FileTree, op: FileOp) -> Option<FileTree> {
    match op {
        FileOp::Copy(from, to) => if fs.contains_key(from) {
            Some(fs.insert(to, fs[from]))
        } else {
            None
        },
        FileOp::Write(path, content) => Some(fs.insert(path, content)),
    }
}

/// The files after `ops` run in order, stopping at the first that fails.
pub open spec fn apply_ops(fs: FileTree, ops: Seq<FileOp>) -> Option<FileTree>
    decreases ops.len(),
{
    if ops.len() == 0 {
        Some(fs)
    } else {
        match apply_op(fs, ops[0]) {
            Some(next) => apply_ops(next, ops.drop_first()),
            None => None,
        }
    }
}

/// The operations that save `content` at `path`: a backup copy first when a
/// file is there, then the write.
pub open spec fn planned_ops(path: Seq<char>, content: Seq<char>, target_exists: bool, timestamp: nat) -> Seq<FileOp> {
    if target_exists {
        seq![FileOp::Copy(path, backup_name(path, timestamp)), FileOp::Write(path, content)]
    } else {
        seq![FileOp::Write(path, content)]
    }
}

/// Plans the save of `content` at `path` at `timestamp`. `target_exists` tells
/// whether a file is at `path`, `backup_taken` whether one is already at its
/// backup path; a backup is never overwritten, so that case is refused.
pub fn plan_write(path: &str, content: &str, target_exists: bool, backup_taken: bool, timestamp: u64) -> (r: Result<Vec<WriteStep>, AppError>)
    ensures
        r is Err <==> target_exists && backup_taken,
        r is Err ==> r->Err_0 is AlreadyExists && r->Err_0->AlreadyExists_0@ == "Backup already exists: "@
            + backup_name(path@, timestamp as nat),
        r is Ok ==> r->Ok_0@.map_values(|s: WriteStep| s@) == planned_ops(path@, content@, target_exists, timestamp as nat),
{
    let write = WriteStep::WriteFile { path: String::from_str(path), content: String::from_str(content) };
    if target_exists {
        let backup = backup_path_for(path, timestamp);
        if backup_taken {
            return Err(AppError::AlreadyExists(join_text("Backup already exists: ", backup.as_str())));
        }
        let copy = WriteStep::CopyFile { from: String::from_str(path), to: backup };
        let steps = vec![copy, write];
        assert(steps@.map_values(|s: WriteStep| s@) =~= planned_ops(path@, content@, target_exists, timestamp as nat));
        Ok(steps)
    } else {
        let steps = vec![write];
        assert(steps@.map_values(|s: WriteStep| s@) =~= planned_ops(path@, content@, target_exists, timestamp as nat));
        Ok(steps)
    }
}

proof fn lemma_last_before_range(s: Seq<char>, c: char, end: int)
    requires
        0 <= end <= s.len(),
    ensures
        -1 <= last_before(s, c, end) < end,
    decreases end,
{
    if end > 0 {
        lemma_last_before_range(s, c, end - 1);
    }
}

proof fn lemma_backup_name_longer(path: Seq<char>, timestamp: nat)
    ensures
        backup_name(path, timestamp).len() > path.len(),
{
    reveal_strlit(".backup.");
    lemma_last_before_range(path, '.', path.len() as int);
    lemma_last_before_range(path, '/', path.len() as int);
}

/// Saving over an existing file whose backup name is free leaves the new
/// content at the path and the old content in exactly one new file, its backup;
/// every other file stays as it was.
pub proof fn lemma_write_makes_one_backup(fs: FileTree, path: Seq<char>, content: Seq<char>, timestamp: nat)
    requires
        fs.contains_key(path),
        !fs.contains_key(backup_name(path, timestamp)),
    ensures
        ({
            let b = backup_name(path, timestamp);
            let r = apply_ops(fs, planned_ops(path, content, true, timestamp));
            &&& r is Some
            &&& r->0[path] == content
            &&& r->0[b] == fs[path]
            &&& b != path
            &&& r->0.dom() == fs.dom().insert(b)
            &&& forall|k: Seq<char>| fs.contains_key(k) && k != path ==> #[trigger] r->0[k] == fs[k]
        }),
{
    let b = backup_name(path, timestamp);
    lemma_backup_name_longer(path, timestamp);
    let ops = planned_ops(path, content, true, timestamp);
    let f1 = fs.insert(b, fs[path]);
    let f2 = f1.insert(path, content);
    assert(apply_op(fs, ops[0]) == Some(f1));
    assert(ops.drop_first() =~= seq![FileOp::Write(path, content)]);
    assert(apply_op(f1, FileOp::Write(path, content)) == Some(f2));
    assert(seq![FileOp::Write(path, content)].drop_first() =~= Seq::<FileOp>::empty());
    assert(apply_ops(f1, ops.drop_first()) == apply_ops(f2, Seq::<FileOp>::empty()));
    assert(f2.dom() =~= fs.dom().insert(b));
}

/// Saving where no file is yet creates that one file and no backup.
pub proof fn lemma_write_without_target(fs: FileTree, path: Seq<char>, content: Seq<char>, timestamp: nat)
    requires
        !fs.contains_key(path),
    ensures
        apply_ops(fs, planned_ops(path, content, false, timestamp)) == Some(fs.insert(path, content)),
        fs.insert(path, content).dom() == fs.dom().insert(path),
{
    let ops = planned_ops(path, content, false, timestamp);
    assert(ops.drop_first() =~= Seq::<FileOp>::empty());
    assert(apply_ops(fs.insert(path, content), ops.drop_first()) == Some(fs.insert(path, content)));
    assert(fs.insert(path, content).dom() =~= fs.dom().insert(path));
}

/// The operations that restore the backup at `backup` over `target`: the
/// current target is backed up first when it exists, then the backup copied.
pub open spec fn restore_ops(backup: Seq<char>, target: Seq<char>, target_exists: bool, timestamp: nat) -> Seq<FileOp> {
    if target_exists {
        seq![FileOp::Copy(target, backup_name(target, timestamp)), FileOp::Copy(backup, target)]
    } else {
        seq![FileOp::Copy(backup, target)]
    }
}

/// Plans restoring the backup at `backup_path` over `target_path` at
/// `timestamp`; `target_exists` and `backup_taken` are as for `plan_write`.
pub fn plan_restore(backup_path: &str, target_path: &str, target_exists: bool, backup_taken: bool, timestamp: u64) -> (r: Result<Vec<WriteStep>, AppError>)
    ensures
        r is Err <==> target_exists && backup_taken,
        r is Err ==> r->Err_0 is AlreadyExists && r->Err_0->AlreadyExists_0@ == "Backup already exists: "@
            + backup_name(target_path@, timestamp as nat),
        r is Ok ==> r->Ok_0@.map_values(|s: WriteStep| s@) == restore_ops(backup_path@, target_path@, target_exists, timestamp as nat),
{
    let restore = WriteStep::CopyFile { from: String::from_str(backup_path), to: String::from_str(target_path) };
    if target_exists {
        let backup = backup_path_for(target_path, timestamp);
        if backup_taken {
            return Err(AppError::AlreadyExists(join_text("Backup already exists: ", backup.as_str())));
        }
        let copy = WriteStep::CopyFile { from: String::from_str(target_path), to: backup };
        let steps = vec![copy, restore];
        assert(steps@.map_values(|s: WriteStep| s@) =~= restore_ops(backup_path@, target_path@, target_exists, timestamp as nat));
        Ok(steps)
    } else {
        let steps = vec![restore];
        assert(steps@.map_values(|s: WriteStep| s@) =~= restore_ops(backup_path@, target_path@, target_exists, timestamp as nat));
        Ok(steps)
    }
}

/// `t` occurs in `s` at position `i`.
pub open spec fn occurs_at(s: Seq<char>, t: Seq<char>, i: int) -> bool {
    0 <= i && i + t.len() <= s.len() && s.subrange(i, i + t.len()) == t
}

/// `t` occurs somewhere in `s`.
pub open spec fn contains_text(s: Seq<char>, t: Seq<char>) -> bool {
    exists|i: int| occurs_at(s, t, i)
}

/// Whether `t` occurs in `s`.
pub fn text_contains(s: &str, t: &str) -> (r: bool)
    ensures
        r == contains_text(s@, t@),
{
    let v = chars_of(s);
    let w = chars_of(t);
    if w.len() > v.len() {
        assert forall|i: int| !occurs_at(s@, t@, i) by {}
        return false;
    }
    let mut i: usize = 0;
    while i <= v.len() - w.len()
        invariant
            v@ == s@,
            w@ == t@,
            w.len() <= v.len(),
            i <= v.len() - w.len() + 1,
            forall|k: int| 0 <= k < i ==> !occurs_at(s@, t@, k),
        decreases v.len() - i,
    {
        let mut j: usize = 0;
        while j < w.len() && v[i + j] == w[j]
            invariant
                v@ == s@,
                w@ == t@,
                i + w.len() <= v.len(),
                j <= w.len(),
                forall|m: int| 0 <= m < j ==> v@[i + m] == w@[m],
            decreases w.len() - j,
        {
            j = j + 1;
        }
        if j == w.len() {
            assert(s@.subrange(i as int, i + t@.len()) =~= t@);
            assert(occurs_at(s@, t@, i as int));
            return true;
        }
        assert(!occurs_at(s@, t@, i as int)) by {
            if occurs_at(s@, t@, i as int) {
                assert(s@.subrange(i as int, i + t@.len())[j as int] == t@[j as int]);
            }
        }
        i = i + 1;
    }
    assert forall|k: int| !occurs_at(s@, t@, k) by {
        if 0 <= k && k >= i {
            assert(k + t@.len() > s@.len());
        }
    }
    false
}

/// `a` comes before `b` in lexicographic order of characters.
pub open spec fn text_before(a: Seq<char>, b: Seq<char>) -> bool
    decreases a.len(),
{
    if a.len() == 0 {
        b.len() > 0
    } else if b.len() == 0 {
        false
    } else if a[0] != b[0] {
        a[0] < b[0]
    } else {
        text_before(a.drop_first(), b.drop_first())
    }
}

/// Relies on `slice::sort_by` with the reversed `String` order: the same names,
/// newest (greatest) first. `String` orders by UTF-8 bytes, which is the order
/// of the characters' code points.
#[verifier::external_body]
fn sort_newest_first(v: &mut Vec<String>)
    ensures
        final(v)@.map_values(|s: String| s@).to_multiset() == old(v)@.map_values(|s: String| s@).to_multiset(),
        forall|i: int, j: int|
            0 <= i < j < final(v)@.len() ==> !text_before(#[trigger] final(v)@[i]@, #[trigger] final(v)@[j]@),
{
    v.sort_by(|a, b| b.cmp(a))
}

/// The backup names among the first `k` of `names`, in their order.
pub open spec fn backups_among(names: Seq<Seq<char>>, k: int) -> Seq<Seq<char>>
    decreases k,
{
    if k <= 0 || k > names.len() {
        Seq::empty()
    } else if contains_text(names[k - 1], ".backup."@) {
        backups_among(names, k - 1).push(names[k - 1])
    } else {
        backups_among(names, k - 1)
    }
}

/// The backup files among the file names `names` (those holding `.backup.`),
/// newest first.
pub fn select_backups(names: &Vec<String>) -> (r: Vec<String>)
    ensures
        r@.map_values(|s: String| s@).to_multiset() == backups_among(
            names@.map_values(|s: String| s@),
            names@.len() as int,
        ).to_multiset(),
        forall|i: int, j: int| 0 <= i < j < r@.len() ==> !text_before(#[trigger] r@[i]@, #[trigger] r@[j]@),
{
    let ghost nv = names@.map_values(|s: String| s@);
    let mut r: Vec<String> = Vec::new();
    let mut k: usize = 0;
    while k < names.len()
        invariant
            nv == names@.map_values(|s: String| s@),
            k <= names.len(),
            r@.map_values(|s: String| s@) == backups_among(nv, k as int),
        decreases names.len() - k,
    {
        let name = &names[k];
        assert(nv[k as int] == name@);
        if text_contains(name.as_str(), ".backup.") {
            let ghost before = r@.map_values(|s: String| s@);
            r.push(name.clone());
            assert(r@.map_values(|s: String| s@) =~= before.push(name@));
        }
        k = k + 1;
    }
    sort_newest_first(&mut r);
    r
}

} // verus!
