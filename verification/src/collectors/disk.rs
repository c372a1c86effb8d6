//! `df` output.

use vstd::prelude::*;

use crate::snapshot::DiskInfo;
use crate::text::{
    char_views, chars_eq, chars_of, join, join_chars, lemma_take_all, lemma_tokens_nonempty,
    lines, lit, parse_u64_chars, parse_u64_spec, split_lines, split_tokens, string_from_chars,
    tokens, after_header,
};

verus! {

/// Filesystem types a "disk nearly full" finding must never fire on: pseudo
/// filesystems, and read-only images that are full by construction.
pub open spec fn excluded_fs(fs: Seq<char>) -> bool {
    fs == "tmpfs"@ || fs == "devtmpfs"@ || fs == "ramfs"@ || fs == "overlay"@ || fs
        == "efivarfs"@ || fs == "squashfs"@ || fs == "iso9660"@ || fs == "udf"@ || fs == "erofs"@
}

/// The arguments `df` is run with: sizes in bytes, the five columns
/// [`df_row`] reads, and `-x` for each type [`excluded_fs`] names, so those
/// are not even listed.
pub open spec fn df_args_text() -> Seq<Seq<char>> {
    seq![
        "-B1"@, "--output=source,target,fstype,size,avail"@, "-x"@, "tmpfs"@, "-x"@,
        "devtmpfs"@, "-x"@, "ramfs"@, "-x"@, "overlay"@, "-x"@, "efivarfs"@, "-x"@,
        "squashfs"@, "-x"@, "iso9660"@, "-x"@, "udf"@, "-x"@, "erofs"@,
    ]
}

/// The `df` arguments at `i` leave out filesystems of type `fs`.
pub open spec fn leaves_out_at(i: int, fs: Seq<char>) -> bool {
    2 <= i < df_args_text().len() - 1 && df_args_text()[i] == "-x"@ && df_args_text()[i + 1] == fs
}

/// `df` is asked to leave out every filesystem type the disk rule ignores.
pub proof fn lemma_df_leaves_out_excluded(fs: Seq<char>)
    requires
        excluded_fs(fs),
    ensures
        exists|i: int| #[trigger] leaves_out_at(i, fs),
{
    let a = df_args_text();
    if fs == "tmpfs"@ { assert(leaves_out_at(2, fs)); }
    else if fs == "devtmpfs"@ { assert(leaves_out_at(4, fs)); }
    else if fs == "ramfs"@ { assert(leaves_out_at(6, fs)); }
    else if fs == "overlay"@ { assert(leaves_out_at(8, fs)); }
    else if fs == "efivarfs"@ { assert(leaves_out_at(10, fs)); }
    else if fs == "squashfs"@ { assert(leaves_out_at(12, fs)); }
    else if fs == "iso9660"@ { assert(leaves_out_at(14, fs)); }
    else if fs == "udf"@ { assert(leaves_out_at(16, fs)); }
    else { assert(leaves_out_at(18, fs)); }
}

/// The arguments `df` is run with (see [`df_args_text`]).
pub fn df_args() -> (v: Vec<&'static str>)
    ensures
        v@.map_values(|s: &str| s@) == df_args_text(),
{
    let v = vec![
        "-B1", "--output=source,target,fstype,size,avail", "-x", "tmpfs", "-x", "devtmpfs",
        "-x", "ramfs", "-x", "overlay", "-x", "efivarfs", "-x", "squashfs", "-x", "iso9660",
        "-x", "udf", "-x", "erofs",
    ];
    assert(v@.map_values(|s: &str| s@) =~= df_args_text());
    v
}

/// A filesystem as `df` reports it: source, mount point, type, size and
/// available bytes.
pub type DfRow = (Seq<char>, Seq<char>, Seq<char>, u64, u64);

/// A `df -B1 --output=source,target,fstype,size,avail` row, when it
/// describes a real, mounted filesystem. The mount point may hold spaces, so
/// the last three columns are read from the right and the tokens between
/// the source and them, joined by single spaces, are the mount point.
pub open spec fn df_row(l: Seq<char>) -> Option<DfRow> {
    let t = tokens(l);
    let n = t.len();
    if n < 5 {
        None
    } else {
        match (parse_u64_spec(t[n - 1]), parse_u64_spec(t[n - 2])) {
            (Some(avail), Some(total)) => {
                let fs = t[n - 3];
                let mount = join(t.subrange(1, n - 3), " "@);
                if !(mount.len() > 0 && mount[0] == '/') || total == 0 || excluded_fs(fs) {
                    None
                } else {
                    Some((t[0], mount, fs, total, avail))
                }
            },
            _ => None,
        }
    }
}

/// Whether some row in `rows` has source `src`.
pub open spec fn has_source(rows: Seq<DfRow>, src: Seq<char>) -> bool {
    exists|i: int| 0 <= i < rows.len() && (#[trigger] rows[i]).0 == src
}

/// The filesystems of `df` rows `ls`, keeping only the first row of each
/// source device (a bind mount is not a second disk).
pub open spec fn df_rows(ls: Seq<Seq<char>>) -> Seq<DfRow>
    decreases ls.len(),
{
    if ls.len() == 0 {
        Seq::empty()
    } else {
        let rows = df_rows(ls.drop_last());
        match df_row(ls.last()) {
            Some(r) => if has_source(rows, r.0) {
                rows
            } else {
                rows.push(r)
            },
            None => rows,
        }
    }
}

/// What a parsed disk records.
pub open spec fn disk_view(d: DiskInfo) -> (Seq<char>, Seq<char>, u64, u64) {
    (d.mount_point@, d.fs_type@, d.total_bytes, d.available_bytes)
}

/// The filesystems of `df` output, header skipped.
pub open spec fn df_disks(s: Seq<char>) -> Seq<(Seq<char>, Seq<char>, u64, u64)> {
    df_rows(after_header(lines(s))).map_values(|r: DfRow| (r.1, r.2, r.3, r.4))
}

fn is_excluded(fs: &Vec<char>) -> (b: bool)
    ensures
        b == excluded_fs(fs@),
{
    chars_eq(fs, &lit("tmpfs")) || chars_eq(fs, &lit("devtmpfs")) || chars_eq(fs, &lit("ramfs"))
        || chars_eq(fs, &lit("overlay")) || chars_eq(fs, &lit("efivarfs")) || chars_eq(
        fs,
        &lit("squashfs"),
    ) || chars_eq(fs, &lit("iso9660")) || chars_eq(fs, &lit("udf")) || chars_eq(
        fs,
        &lit("erofs"),
    )
}

fn seen_source(sources: &Vec<Vec<char>>, src: &Vec<char>) -> (b: bool)
    ensures
        b == exists|i: int| 0 <= i < sources@.len() && #[trigger] sources@[i]@ == src@,
{
    for i in 0..sources.len()
        invariant
            forall|j: int| 0 <= j < i ==> #[trigger] sources@[j]@ != src@,
    {
        if chars_eq(&sources[i], src) {
            return true;
        }
    }
    false
}

/// Parse `df -B1 --output=source,target,fstype,size,avail` (see
/// [`df_disks`]): pseudo filesystems, read-only images, rows that are not
/// mounted paths or have no size, and repeated source devices are skipped.
pub fn parse_df(s: &str) -> (r: Vec<DiskInfo>)
    ensures
        r@.map_values(|d: DiskInfo| disk_view(d)) == df_disks(s@),
{
    let cs = chars_of(s);
    let ls = split_lines(&cs);
    let ghost lv = char_views(ls@);
    let ghost body = after_header(lv);
    let mut out: Vec<DiskInfo> = Vec::new();
    let mut sources: Vec<Vec<char>> = Vec::new();
    let space = lit(" ");
    let n = ls.len();
    if n == 0 {
        assert(out@.map_values(|d: DiskInfo| disk_view(d)) =~= df_disks(s@));
        return out;
    }
    assert(body.take(0) =~= Seq::<Seq<char>>::empty());
    for i in 1..n
        invariant
            n == ls@.len(),
            n >= 1,
            lv == char_views(ls@),
            lv == lines(s@),
            body == lv.skip(1),
            space@ == " "@,
            sources@.len() == df_rows(body.take(i - 1)).len(),
            forall|j: int|
                0 <= j < sources@.len() ==> #[trigger] sources@[j]@ == df_rows(body.take(i - 1))[j].0,
            out@.map_values(|d: DiskInfo| disk_view(d)) == df_rows(body.take(i - 1)).map_values(
                |r: DfRow| (r.1, r.2, r.3, r.4),
            ),
    {
        let ghost prev = df_rows(body.take(i - 1));
        assert(body.take(i as int).drop_last() == body.take(i - 1));
        assert(body.take(i as int).last() == lv[i as int]);
        assert(ls@[i as int]@ == lv[i as int]);
        let t = split_tokens(&ls[i]);
        let ghost tv = char_views(t@);
        proof {
            lemma_tokens_nonempty(ls@[i as int]@);
        }
        let k = t.len();
        if k >= 5 {
            assert(tv[k - 1] == t@[k - 1]@);
            assert(tv[k - 2] == t@[k - 2]@);
            assert(tv[k - 3] == t@[k - 3]@);
            assert(tv[0] == t@[0]@);
            let avail = parse_u64_chars(&t[k - 1]);
            let total = parse_u64_chars(&t[k - 2]);
            if let (Some(avail), Some(total)) = (avail, total) {
                let fs = &t[k - 3];
                let mount = join_chars(&t, 1, k - 3, &space);
                if !(!(mount.len() > 0 && mount[0] == '/') || total == 0 || is_excluded(fs)) {
                    let src = &t[0];
                    let ghost row: DfRow = (src@, mount@, fs@, total, avail);
                    assert(df_row(lv[i as int]) == Some(row));
                    let seen = seen_source(&sources, src);
                    assert(seen == has_source(prev, src@)) by {
                        if seen {
                            let q = choose|q: int| 0 <= q < sources@.len() && #[trigger] sources@[q]@ == src@;
                            assert(prev[q].0 == src@);
                        }
                        if has_source(prev, src@) {
                            let q = choose|q: int| 0 <= q < prev.len() && (#[trigger] prev[q]).0 == src@;
                            assert(sources@[q]@ == src@);
                        }
                    }
                    if !seen {
                        let ghost before = out@;
                        let d = DiskInfo {
                            mount_point: string_from_chars(&mount),
                            fs_type: string_from_chars(fs),
                            total_bytes: total,
                            available_bytes: avail,
                        };
                        out.push(d);
                        assert(out@.map_values(|d: DiskInfo| disk_view(d)) =~= before.map_values(
                            |d: DiskInfo| disk_view(d),
                        ).push(disk_view(d)));
                        let src_copy = crate::text::slice_chars(src, 0, src.len());
                        sources.push(src_copy);
                        assert(prev.push(row).map_values(|r: DfRow| (r.1, r.2, r.3, r.4))
                            =~= prev.map_values(|r: DfRow| (r.1, r.2, r.3, r.4)).push(
                            (row.1, row.2, row.3, row.4),
                        ));
                    }
                }
            }
        }
    }
    assert(body.take(n - 1) == body);
    out
}

} // verus!
