//! The list of scanned files as the consumer shows it: its order, its
//! pages, and what becomes of it when files are deleted.

use vstd::prelude::*;
use crate::duration::{hms_seconds, parse_duration_to_seconds};
use crate::media::{copy_file_info, file_views, FileInfoView, Mp4FileInfo};
use crate::path_set::PathSet;
use crate::text::{chars_of, decimal, push_decimal, push_str, string_of};

verus! {

/// What a listing is ordered by.
#[derive(Clone, Copy, Debug, PartialEq, Eq, Structural)]
pub enum SortBy {
    Duration,
}

/// The number by which a file is ordered: the seconds that its duration
/// text stands for, `u32::MAX` at most. A text that cannot be read orders
/// as zero.
#[verifier::opaque]
pub open spec fn duration_key(file: FileInfoView) -> nat {
    if hms_seconds(file.duration) <= u32::MAX {
        hms_seconds(file.duration)
    } else {
        u32::MAX as nat
    }
}

/// `sorted` with `file` put in behind every file whose key is not larger.
pub open spec fn insert_by_key(sorted: Seq<FileInfoView>, file: FileInfoView) -> Seq<FileInfoView>
    decreases sorted.len(),
{
    if sorted.len() == 0 {
        seq![file]
    } else if duration_key(sorted.last()) <= duration_key(file) {
        sorted.push(file)
    } else {
        insert_by_key(sorted.drop_last(), file).push(sorted.last())
    }
}

/// The files in the order of their keys, smallest first; files with the
/// same key keep the order they had.
pub open spec fn sorted_by_duration(files: Seq<FileInfoView>) -> Seq<FileInfoView>
    decreases files.len(),
{
    if files.len() == 0 {
        Seq::<FileInfoView>::empty()
    } else {
        insert_by_key(sorted_by_duration(files.drop_last()), files.last())
    }
}

/// The order that a listing is given: by duration, shortest first, and the
/// whole of it turned round when the longest is to come first.
pub open spec fn ordered(files: Seq<FileInfoView>, descending: bool) -> Seq<FileInfoView> {
    if descending {
        sorted_by_duration(files).reverse()
    } else {
        sorted_by_duration(files)
    }
}

/// The keys of `files` never decrease.
pub open spec fn keys_ascend(files: Seq<FileInfoView>) -> bool {
    forall|i: int, j: int|
        0 <= i <= j < files.len() ==> duration_key(#[trigger] files[i]) <= duration_key(
            #[trigger] files[j],
        )
}

/// Where `file` goes in `sorted`: behind the last file whose key is not
/// larger.
pub proof fn lemma_insert_position(sorted: Seq<FileInfoView>, file: FileInfoView, at: int)
    requires
        0 <= at <= sorted.len(),
        at > 0 ==> duration_key(sorted[at - 1]) <= duration_key(file),
        forall|k: int|
            at <= k < sorted.len() ==> duration_key(#[trigger] sorted[k]) > duration_key(file),
    ensures
        insert_by_key(sorted, file) =~= sorted.insert(at, file),
    decreases sorted.len(),
{
    if sorted.len() == 0 {
    } else if at == sorted.len() {
        assert(duration_key(sorted.last()) <= duration_key(file));
    } else {
        let front = sorted.drop_last();
        assert(duration_key(sorted[sorted.len() - 1]) > duration_key(file));
        assert forall|k: int| at <= k < front.len() implies duration_key(#[trigger] front[k])
            > duration_key(file) by {
            assert(front[k] == sorted[k]);
        }
        if at > 0 {
            assert(front[at - 1] == sorted[at - 1]);
        }
        lemma_insert_position(front, file, at);
        assert(front.insert(at, file).push(sorted.last()) =~= sorted.insert(at, file));
    }
}

/// Putting a file into ascending files leaves them ascending, and adds
/// just that file.
pub proof fn lemma_insert_keeps_order(sorted: Seq<FileInfoView>, file: FileInfoView)
    requires
        keys_ascend(sorted),
    ensures
        keys_ascend(insert_by_key(sorted, file)),
        insert_by_key(sorted, file).len() == sorted.len() + 1,
        insert_by_key(sorted, file).to_multiset() == sorted.to_multiset().insert(file),
    decreases sorted.len(),
{
    broadcast use vstd::seq_lib::group_to_multiset_ensures;

    let out = insert_by_key(sorted, file);
    if sorted.len() == 0 {
        assert(sorted =~= Seq::<FileInfoView>::empty());
        assert(out =~= Seq::<FileInfoView>::empty().push(file));
    } else if duration_key(sorted.last()) <= duration_key(file) {
        assert forall|i: int, j: int| 0 <= i <= j < out.len() implies duration_key(
            #[trigger] out[i],
        ) <= duration_key(#[trigger] out[j]) by {
            if j == sorted.len() {
                if i < sorted.len() {
                    assert(duration_key(sorted[i]) <= duration_key(sorted[sorted.len() - 1]));
                }
            } else {
                assert(duration_key(sorted[i]) <= duration_key(sorted[j]));
            }
        }
    } else {
        let front = sorted.drop_last();
        assert(keys_ascend(front)) by {
            assert forall|i: int, j: int| 0 <= i <= j < front.len() implies duration_key(
                #[trigger] front[i],
            ) <= duration_key(#[trigger] front[j]) by {
                assert(duration_key(sorted[i]) <= duration_key(sorted[j]));
            }
        }
        lemma_insert_keeps_order(front, file);
        let inner = insert_by_key(front, file);
        assert(front.push(sorted.last()) =~= sorted);
        assert forall|i: int, j: int| 0 <= i <= j < out.len() implies duration_key(
            #[trigger] out[i],
        ) <= duration_key(#[trigger] out[j]) by {
            if j == inner.len() {
                if i < inner.len() {
                    lemma_inserted_is_bounded(front, file, sorted.last(), i);
                }
            } else {
                assert(duration_key(inner[i]) <= duration_key(inner[j]));
            }
        }
        assert(out.to_multiset() =~= sorted.to_multiset().insert(file));
    }
}

/// Each file of an insertion is the new file or one of the old.
proof fn lemma_inserted_is_bounded(
    sorted: Seq<FileInfoView>,
    file: FileInfoView,
    bound: FileInfoView,
    i: int,
)
    requires
        duration_key(file) < duration_key(bound),
        forall|k: int|
            0 <= k < sorted.len() ==> duration_key(#[trigger] sorted[k]) <= duration_key(bound),
        0 <= i < insert_by_key(sorted, file).len(),
    ensures
        duration_key(insert_by_key(sorted, file)[i]) <= duration_key(bound),
    decreases sorted.len(),
{
    if sorted.len() > 0 && !(duration_key(sorted.last()) <= duration_key(file)) {
        let front = sorted.drop_last();
        if i < insert_by_key(front, file).len() {
            assert forall|k: int| 0 <= k < front.len() implies duration_key(
                #[trigger] front[k],
            ) <= duration_key(bound) by {
                assert(front[k] == sorted[k]);
            }
            lemma_inserted_is_bounded(front, file, bound, i);
        }
    }
}

/// Files sorted by duration are the same files, and their keys never
/// decrease.
pub proof fn lemma_sorted_is_ordered_permutation(files: Seq<FileInfoView>)
    ensures
        keys_ascend(sorted_by_duration(files)),
        sorted_by_duration(files).len() == files.len(),
        sorted_by_duration(files).to_multiset() == files.to_multiset(),
    decreases files.len(),
{
    broadcast use vstd::seq_lib::group_to_multiset_ensures;

    if files.len() == 0 {
        assert(files =~= Seq::<FileInfoView>::empty());
    } else {
        lemma_sorted_is_ordered_permutation(files.drop_last());
        lemma_insert_keeps_order(sorted_by_duration(files.drop_last()), files.last());
        assert(files.drop_last().push(files.last()) =~= files);
    }
}

/// The files of `files` whose key is `key`, in order.
pub open spec fn with_key(files: Seq<FileInfoView>, key: nat) -> Seq<FileInfoView> {
    files.filter(|file: FileInfoView| duration_key(file) == key)
}

/// Putting a file in leaves the files of every key in the order they had,
/// with the new file behind those of its own key.
proof fn lemma_insert_is_stable(sorted: Seq<FileInfoView>, file: FileInfoView, key: nat)
    ensures
        with_key(insert_by_key(sorted, file), key) == if duration_key(file) == key {
            with_key(sorted, key).push(file)
        } else {
            with_key(sorted, key)
        },
    decreases sorted.len(),
{
    reveal(Seq::filter);
    let pred = |f: FileInfoView| duration_key(f) == key;
    if sorted.len() == 0 {
        assert(seq![file].drop_last() =~= sorted);
    } else if duration_key(sorted.last()) <= duration_key(file) {
        assert(sorted.push(file).drop_last() =~= sorted);
    } else {
        let front = sorted.drop_last();
        lemma_insert_is_stable(front, file, key);
        let inner = insert_by_key(front, file);
        assert(inner.push(sorted.last()).drop_last() =~= inner);
    }
}

/// Sorting is stable: the files of every key are in the order they had.
pub proof fn lemma_sort_is_stable(files: Seq<FileInfoView>, key: nat)
    ensures
        with_key(sorted_by_duration(files), key) == with_key(files, key),
    decreases files.len(),
{
    reveal(Seq::filter);
    if files.len() > 0 {
        lemma_sort_is_stable(files.drop_last(), key);
        lemma_insert_is_stable(sorted_by_duration(files.drop_last()), files.last(), key);
    }
}

/// The number by which `file` is ordered.
fn key_of(file: &Mp4FileInfo) -> (key: u32)
    ensures
        key == duration_key(file@),
{
    reveal(duration_key);
    parse_duration_to_seconds(file.duration.as_str())
}

/// Orders a listing by duration. Files whose durations are equal keep
/// their order when the shortest comes first, and have it turned round
/// with the rest when the longest comes first.
pub fn sort_mp4_files(files: &mut Vec<Mp4FileInfo>, field: SortBy, desc: bool)
    ensures
        file_views(final(files)@) == ordered(file_views(old(files)@), desc),
{
    let ghost input = file_views(files@);
    let mut unsorted: Vec<Mp4FileInfo> = Vec::new();
    std::mem::swap(files, &mut unsorted);
    let mut sorted: Vec<Mp4FileInfo> = Vec::new();
    let mut keys: Vec<u32> = Vec::new();
    assert(input.take(0) =~= Seq::<FileInfoView>::empty());
    assert(file_views(sorted@) =~= Seq::<FileInfoView>::empty());
    for file in it: unsorted
        invariant
            file_views(it.seq()) == input,
            file_views(sorted@) == sorted_by_duration(input.take(it.index() as int)),
            keys@.len() == sorted@.len(),
            forall|k: int|
                0 <= k < keys@.len() ==> #[trigger] keys@[k] == duration_key(sorted@[k]@),
    {
        let ghost done = input.take(it.index() as int);
        let ghost before = file_views(sorted@);
        proof {
            assert(input.take(it.index() + 1).drop_last() =~= done);
            assert(input.take(it.index() + 1).last() == file@);
        }
        let key: u32 = key_of(&file);
        let mut at: usize = sorted.len();
        while at > 0 && keys[at - 1] > key
            invariant
                at <= sorted@.len(),
                keys@.len() == sorted@.len(),
                forall|k: int|
                    0 <= k < keys@.len() ==> #[trigger] keys@[k] == duration_key(sorted@[k]@),
                forall|k: int| at <= k < keys@.len() ==> #[trigger] keys@[k] > key,
            decreases at,
        {
            at -= 1;
        }
        proof {
            assert forall|k: int| at <= k < before.len() implies duration_key(
                #[trigger] before[k],
            ) > duration_key(file@) by {
                assert(keys@[k] > key);
            }
            if at > 0 {
                assert(keys@[at - 1] == duration_key(before[at - 1]));
            }
            lemma_insert_position(before, file@, at as int);
        }
        sorted.insert(at, file);
        keys.insert(at, key);
        assert(file_views(sorted@) =~= before.insert(at as int, file@));
    }
    assert(input.take(input.len() as int) =~= input);
    if desc {
        let ghost ascending = file_views(sorted@);
        let mut turned: Vec<Mp4FileInfo> = Vec::new();
        while sorted.len() > 0
            invariant
                sorted@.len() + turned@.len() == ascending.len(),
                file_views(sorted@) == ascending.take(sorted@.len() as int),
                forall|k: int|
                    0 <= k < turned@.len() ==> (#[trigger] turned@[k])@ == ascending[ascending.len()
                        - 1 - k],
            decreases sorted.len(),
        {
            let ghost rest = file_views(sorted@);
            let last = sorted.pop();
            match last {
                Some(file) => {
                    assert(file@ == rest[rest.len() - 1]);
                    turned.push(file);
                    assert(file_views(sorted@) =~= ascending.take(sorted@.len() as int));
                },
                None => {},
            }
        }
        assert(file_views(turned@) =~= ascending.reverse());
        *files = turned;
    } else {
        *files = sorted;
    }
}

/// How many pages `len` files fill when a page holds `page_size`.
pub open spec fn pages_needed(len: nat, page_size: nat) -> nat {
    if len % page_size == 0 {
        len / page_size
    } else {
        len / page_size + 1
    }
}

/// Where page `page` begins among `len` files, pages counted from one.
pub open spec fn page_start(page: nat, page_size: nat, len: nat) -> nat {
    if (page - 1) * page_size < len {
        ((page - 1) * page_size) as nat
    } else {
        len
    }
}

/// Where page `page` ends among `len` files.
pub open spec fn page_end(page: nat, page_size: nat, len: nat) -> nat {
    if page_start(page, page_size, len) + page_size < len {
        page_start(page, page_size, len) + page_size
    } else {
        len
    }
}

/// How many pages `len` files fill when a page holds `page_size`.
pub fn total_pages(len: usize, page_size: usize) -> (pages: usize)
    requires
        page_size > 0,
    ensures
        pages == pages_needed(len as nat, page_size as nat),
{
    if len % page_size == 0 {
        len / page_size
    } else {
        assert(len / page_size < len) by (nonlinear_arith)
            requires
                page_size > 0,
                len % page_size != 0,
        {
            if page_size == 1 {
                assert(len % 1 == 0);
            }
        }
        len / page_size + 1
    }
}

/// The files on page `page`, pages counted from one: `page_size` files
/// from where the page begins, or as many as are left. A page beyond the
/// last is empty.
pub fn page_of(files: &Vec<Mp4FileInfo>, page: usize, page_size: usize) -> (shown: Vec<Mp4FileInfo>)
    requires
        page >= 1,
    ensures
        file_views(shown@) == file_views(files@).subrange(
            page_start(page as nat, page_size as nat, files@.len()) as int,
            page_end(page as nat, page_size as nat, files@.len()) as int,
        ),
{
    let len: usize = files.len();
    assert((page - 1) * page_size <= 0xffff_ffff_ffff_ffff * 0xffff_ffff_ffff_ffff)
        by (nonlinear_arith)
        requires
            0 <= page - 1 <= 0xffff_ffff_ffff_ffff,
            0 <= page_size <= 0xffff_ffff_ffff_ffff,
    ;
    let offset: u128 = (page - 1) as u128 * (page_size as u128);
    let start: usize = if offset < len as u128 {
        offset as usize
    } else {
        len
    };
    let end: usize = if page_size < len - start {
        start + page_size
    } else {
        len
    };
    let mut shown: Vec<Mp4FileInfo> = Vec::new();
    let mut i: usize = start;
    while i < end
        invariant
            start <= i <= end <= files@.len(),
            file_views(shown@) == file_views(files@).subrange(start as int, i as int),
        decreases end - i,
    {
        let ghost before = file_views(shown@);
        shown.push(copy_file_info(&files[i]));
        assert(file_views(shown@) =~= before.push(files@[i as int]@));
        assert(file_views(files@).subrange(start as int, i + 1) =~= file_views(files@).subrange(
            start as int,
            i as int,
        ).push(files@[i as int]@));
        i += 1;
    }
    shown
}

/// The page that a request for `page` leads to: the first page at least,
/// the last at most.
pub fn clamp_page(page: usize, pages: usize) -> (shown: usize)
    ensures
        shown == if page < 1 {
            if pages < 1 {
                pages
            } else {
                1
            }
        } else if page > pages {
            pages
        } else {
            page
        },
{
    let at_least: usize = if page < 1 {
        1
    } else {
        page
    };
    if at_least > pages {
        pages
    } else {
        at_least
    }
}

/// The page to show after a file has been deleted: the page that was
/// shown, unless it lies beyond the pages that the `remaining` files
/// fill, and then the last of those. There is always a first page.
pub fn page_after_delete(current: usize, remaining: usize, page_size: usize) -> (page: usize)
    requires
        page_size > 0,
    ensures
        page == if remaining == 0 {
            if current > 1 {
                1
            } else {
                current
            }
        } else if current > pages_needed(remaining as nat, page_size as nat) {
            pages_needed(remaining as nat, page_size as nat) as usize
        } else {
            current
        },
{
    let pages: usize = if remaining == 0 {
        1
    } else {
        assert(pages_needed(remaining as nat, page_size as nat) >= 1) by (nonlinear_arith)
            requires
                remaining > 0,
                page_size > 0,
        {
            if remaining / page_size == 0 {
                assert(remaining % page_size == remaining);
            }
        }
        total_pages(remaining, page_size)
    };
    if current > pages {
        if pages < 1 {
            1
        } else {
            pages
        }
    } else {
        current
    }
}

/// The files of `files` whose paths are not in `selected`, in order.
pub open spec fn unselected(files: Seq<Mp4FileInfo>, selected: PathSet) -> Seq<Mp4FileInfo> {
    files.filter(|file: Mp4FileInfo| !selected.has(file.file_path@))
}

/// Takes the files whose paths are in `selected` out of a listing.
pub fn retain_unselected(files: Vec<Mp4FileInfo>, selected: &PathSet) -> (kept: Vec<Mp4FileInfo>)
    ensures
        kept@ == unselected(files@, *selected),
{
    let ghost all = files@;
    let ghost pred = |file: Mp4FileInfo| !selected.has(file.file_path@);
    let mut kept: Vec<Mp4FileInfo> = Vec::new();
    proof {
        assert(all.take(0) =~= Seq::<Mp4FileInfo>::empty());
        reveal(Seq::filter);
    }
    for file in it: files
        invariant
            it.seq() == all,
            pred == |file: Mp4FileInfo| !selected.has(file.file_path@),
            kept@ == all.take(it.index() as int).filter(pred),
    {
        proof {
            let k = it.index() as int;
            assert(all.take(k + 1).drop_last() =~= all.take(k));
            assert(all.take(k + 1).last() == file);
            reveal(Seq::filter);
        }
        if !selected.contains(&file.file_path) {
            kept.push(file);
        }
    }
    proof {
        assert(all.take(all.len() as int) =~= all);
    }
    kept
}

/// The position of the file with this path, if the listing holds one.
pub fn position_of(files: &Vec<Mp4FileInfo>, path: &String) -> (found: Option<usize>)
    ensures
        match found {
            Some(i) => i < files@.len() && files@[i as int].file_path@ == path@ && forall|k: int|
                0 <= k < i ==> (#[trigger] files@[k]).file_path@ != path@,
            None => forall|k: int|
                0 <= k < files@.len() ==> (#[trigger] files@[k]).file_path@ != path@,
        },
{
    let mut i: usize = 0;
    while i < files.len()
        invariant
            i <= files.len(),
            forall|k: int| 0 <= k < i ==> (#[trigger] files@[k]).file_path@ != path@,
        decreases files.len() - i,
    {
        if files[i].file_path == *path {
            return Some(i);
        }
        i += 1;
    }
    None
}

/// The name proposed for the output of a merge whose first input is named
/// `name`: the name with `_merged` put in before a closing `.mp4`, or with
/// `_merged.mp4` put behind it where it does not close so.
pub open spec fn merged_name(name: Seq<char>) -> Seq<char> {
    if ends_with_mp4(name) {
        name.take(name.len() - 4) + "_merged.mp4"@
    } else {
        name + "_merged.mp4"@
    }
}

/// `name` closes with `.mp4`, in lower case.
pub open spec fn ends_with_mp4(name: Seq<char>) -> bool {
    let n = name.len() as int;
    n >= 4 && name[n - 4] == '.' && name[n - 3] == 'm' && name[n - 2] == 'p' && name[n - 1] == '4'
}

/// The name proposed for the output of a merge.
pub fn default_output_name(first_input_name: &str) -> (name: String)
    ensures
        name@ == merged_name(first_input_name@),
{
    let chars = chars_of(first_input_name);
    let n: usize = chars.len();
    let closes = n >= 4 && chars[n - 4] == '.' && chars[n - 3] == 'm' && chars[n - 2] == 'p'
        && chars[n - 1] == '4';
    let stem: usize = if closes {
        n - 4
    } else {
        n
    };
    let mut out: Vec<char> = Vec::new();
    let mut i: usize = 0;
    while i < stem
        invariant
            i <= stem <= chars@.len(),
            out@ == chars@.take(i as int),
        decreases stem - i,
    {
        out.push(chars[i]);
        i += 1;
    }
    assert(chars@.take(n as int) =~= chars@);
    push_str(&mut out, "_merged.mp4");
    string_of(&out)
}

/// How a file's dimensions are shown: width, `x`, height; `未知` where
/// either is unknown.
pub open spec fn resolution_text(width: u16, height: u16) -> Seq<char> {
    if width > 0 && height > 0 {
        decimal(width as nat).push('x') + decimal(height as nat)
    } else {
        "未知"@
    }
}

/// How a file's dimensions are shown.
pub fn format_resolution(width: u16, height: u16) -> (text: String)
    ensures
        text@ == resolution_text(width, height),
{
    if width > 0 && height > 0 {
        let mut chars: Vec<char> = Vec::new();
        push_decimal(&mut chars, width as u64);
        chars.push('x');
        push_decimal(&mut chars, height as u64);
        string_of(&chars)
    } else {
        String::from_str("未知")
    }
}

} // verus!
