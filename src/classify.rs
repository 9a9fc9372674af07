//! Classifying a process by the shape of its command path.
use vstd::prelude::*;

use crate::icons::{opt_bytes, resolves, IconParser};
use crate::text::{
    before_first, before_first_exec, chars_of, concat, contains, contains_exec, index_of,
    index_of_exec, lemma_index_from_bounds, same_chars, slice_of, string_of, trim, trim_exec,
};

verus! {

/// What a process is, in the order in which results are listed.
#[derive(Clone, Copy, Debug, PartialEq, Eq, Structural)]
pub enum ApplicationType {
    Executable,
    Service,
    Application,
}

impl Default for ApplicationType {
    fn default() -> (r: Self)
        ensures
            r == ApplicationType::Executable,
    {
        ApplicationType::Executable
    }
}

/// The text offered for copying.
pub struct CopyText {
    pub copy: String,
}

/// The icon shown beside a result.
pub struct Icon {
    pub path: String,
}

/// One display-ready result.
pub struct ParsedApplication {
    pub title: String,
    pub subtitle: String,
    pub uid: String,
    pub text: CopyText,
    pub arg: String,
    pub icon: Icon,
    pub app_type: ApplicationType,
}

/// Splitting `p` on `/`: the segments completed so far and the one being read.
pub open spec fn seg_state(p: Seq<char>) -> (Seq<Seq<char>>, Seq<char>)
    decreases p.len(),
{
    if p.len() == 0 {
        (Seq::empty(), Seq::empty())
    } else {
        let (done, cur) = seg_state(p.drop_last());
        if p.last() == '/' {
            if cur.len() > 0 {
                (done.push(cur), Seq::empty())
            } else {
                (done, Seq::empty())
            }
        } else {
            (done, cur.push(p.last()))
        }
    }
}

/// The non-empty `/`-delimited segments of `p`, in order.
pub open spec fn segments(p: Seq<char>) -> Seq<Seq<char>> {
    let (done, cur) = seg_state(p);
    if cur.len() > 0 {
        done.push(cur)
    } else {
        done
    }
}

/// The segments that carry the bundle marker `.app`, in order.
pub open spec fn app_segments(segs: Seq<Seq<char>>) -> Seq<Seq<char>>
    decreases segs.len(),
{
    if segs.len() == 0 {
        Seq::empty()
    } else {
        let prev = app_segments(segs.drop_last());
        if contains(segs.last(), ".app"@) {
            prev.push(segs.last())
        } else {
            prev
        }
    }
}

/// How many segments of `p` carry the bundle marker; more than one marks a
/// helper process nested inside another bundle.
pub open spec fn app_count(p: Seq<char>) -> nat {
    app_segments(segments(p)).len()
}

/// `p` up to and including its first `.app`, or empty where it has none.
pub open spec fn bundle_path(p: Seq<char>) -> Seq<char> {
    match index_of(p, ".app"@) {
        Some(i) => p.take(i + 4),
        None => Seq::empty(),
    }
}

/// The first segment of `p` is `Applications` or `System`.
pub open spec fn in_bundle_root(p: Seq<char>) -> bool {
    let s = segments(p);
    s.len() > 0 && (s[0] == "Applications"@ || s[0] == "System"@)
}

/// The second segment of `p` is `Library`.
pub open spec fn in_library(p: Seq<char>) -> bool {
    let s = segments(p);
    s.len() > 1 && s[1] == "Library"@
}

pub open spec fn app_type_of(p: Seq<char>) -> ApplicationType {
    if !in_bundle_root(p) {
        ApplicationType::Executable
    } else if app_count(p) > 1 || in_library(p) {
        ApplicationType::Service
    } else {
        ApplicationType::Application
    }
}

pub open spec fn title_of(p: Seq<char>) -> Seq<char> {
    if in_bundle_root(p) {
        if app_count(p) == 0 {
            p
        } else {
            app_segments(segments(p)).last()
        }
    } else {
        before_first(trim(p), " "@)
    }
}

/// What the subtitle says the process runs from: the bundle, or the full
/// path for helpers and bare executables.
pub open spec fn location_of(p: Seq<char>) -> Seq<char> {
    if in_bundle_root(p) && app_count(p) <= 1 {
        bundle_path(p)
    } else {
        p
    }
}

pub open spec fn subtitle_of(cpu: Seq<char>, p: Seq<char>) -> Seq<char> {
    cpu + "% CPU @ "@ + location_of(p)
}

pub open spec fn copy_text_of(pid: Seq<char>, cpu: Seq<char>, p: Seq<char>) -> Seq<char> {
    "pid: "@ + pid + ", cpu "@ + cpu + "%, path: "@ + p
}

/// The view of a vector of character vectors.
pub open spec fn seqs_of(v: Seq<Vec<char>>) -> Seq<Seq<char>> {
    v.map_values(|x: Vec<char>| x@)
}

/// The non-empty `/`-delimited segments of `p`.
pub fn segments_exec(p: &Vec<char>) -> (r: Vec<Vec<char>>)
    ensures
        seqs_of(r@) == segments(p@),
{
    let mut done: Vec<Vec<char>> = Vec::new();
    let mut cur: Vec<char> = Vec::new();
    let mut i: usize = 0;
    while i < p.len()
        invariant
            i <= p.len(),
            (seqs_of(done@), cur@) == seg_state(p@.take(i as int)),
        decreases p.len() - i,
    {
        assert(p@.take(i + 1).drop_last() =~= p@.take(i as int));
        let c = p[i];
        if c == '/' {
            if cur.len() > 0 {
                let ghost before = seqs_of(done@);
                let ghost seg = cur@;
                done.push(cur);
                assert(seqs_of(done@) =~= before.push(seg));
            }
            cur = Vec::new();
        } else {
            cur.push(c);
        }
        i = i + 1;
    }
    assert(p@.take(p.len() as int) =~= p@);
    if cur.len() > 0 {
        let ghost before = seqs_of(done@);
        let ghost seg = cur@;
        done.push(cur);
        assert(seqs_of(done@) =~= before.push(seg));
    }
    done
}

/// `p` up to and including its first `.app`, or empty where it has none.
pub fn bundle_path_exec(p: &Vec<char>) -> (r: Vec<char>)
    ensures
        r@ == bundle_path(p@),
{
    let marker = chars_of(".app");
    proof {
        reveal_strlit(".app");
        lemma_index_from_bounds(p@, marker@, 0);
    }
    match index_of_exec(p, &marker) {
        Some(i) => {
            assert(marker@.len() == 4);
            let n = p.len();
            assert(i + 4 <= n);
            slice_of(p, 0, i + 4)
        },
        None => Vec::new(),
    }
}

/// `a + b + c`.
fn concat3(a: &Vec<char>, b: &Vec<char>, c: &Vec<char>) -> (r: Vec<char>)
    ensures
        r@ == a@ + b@ + c@,
{
    concat(&concat(a, b), c)
}

impl ParsedApplication {
    /// Classifies the process `pid`, using `cpu` percent of the processor,
    /// that runs `path`, and resolves its icon through `icon_parser`, given
    /// the bytes of its bundle's manifest where they were read.
    pub fn new(
        pid: &str,
        cpu: &str,
        path: &str,
        icon_parser: &mut IconParser,
        manifest: Option<&[u8]>,
    ) -> (r: Self)
        requires
            old(icon_parser).wf(),
        ensures
            r.uid@ == pid@,
            r.arg@ == pid@,
            r.title@ == title_of(path@),
            r.subtitle@ == subtitle_of(cpu@, path@),
            r.text.copy@ == copy_text_of(pid@, cpu@, path@),
            r.app_type == app_type_of(path@),
            resolves(
                *old(icon_parser),
                *final(icon_parser),
                bundle_path(path@),
                opt_bytes(manifest),
                r.icon.path@,
            ),
    {
        let p = chars_of(path);
        let pid_chars = chars_of(pid);
        let cpu_chars = chars_of(cpu);
        let segs = segments_exec(&p);
        let ghost sv = seqs_of(segs@);
        let marker = chars_of(".app");
        let mut count: usize = 0;
        let mut last: usize = 0;
        let mut i: usize = 0;
        while i < segs.len()
            invariant
                i <= segs.len(),
                sv == seqs_of(segs@),
                marker@ == ".app"@,
                count == app_segments(sv.take(i as int)).len(),
                count <= i,
                count > 0 ==> last < i && sv[last as int] == app_segments(sv.take(i as int)).last(),
            decreases segs.len() - i,
        {
            assert(sv.take(i + 1).drop_last() =~= sv.take(i as int));
            if contains_exec(&segs[i], &marker) {
                count = count + 1;
                last = i;
            }
            i = i + 1;
        }
        assert(sv.take(segs.len() as int) =~= sv);
        let bundle = bundle_path_exec(&p);
        let copy = concat3(
            &concat3(&chars_of("pid: "), &pid_chars, &chars_of(", cpu ")),
            &cpu_chars,
            &concat(&chars_of("%, path: "), &p),
        );
        let root = segs.len() > 0 && (same_chars(&segs[0], &chars_of("Applications"))
            || same_chars(&segs[0], &chars_of("System")));
        let title;
        let location;
        let app_type;
        if root {
            title = if count == 0 {
                slice_of(&p, 0, p.len())
            } else {
                slice_of(&segs[last], 0, segs[last].len())
            };
            location = if count > 1 {
                slice_of(&p, 0, p.len())
            } else {
                slice_of(&bundle, 0, bundle.len())
            };
            let library = segs.len() > 1 && same_chars(&segs[1], &chars_of("Library"));
            app_type = if count > 1 || library {
                ApplicationType::Service
            } else {
                ApplicationType::Application
            };
        } else {
            title = before_first_exec(&trim_exec(&p), &chars_of(" "));
            location = slice_of(&p, 0, p.len());
            app_type = ApplicationType::Executable;
        }
        assert(p@.subrange(0, p@.len() as int) =~= p@);
        assert(bundle@.subrange(0, bundle@.len() as int) =~= bundle@);
        let subtitle = concat3(&cpu_chars, &chars_of("% CPU @ "), &location);
        let bundle_str = string_of(&bundle);
        let icon = icon_parser.get_app_icon_path(bundle_str.as_str(), manifest);
        proof {
            if root && count > 0 {
                assert(segs@[last as int]@.subrange(0, segs@[last as int]@.len() as int)
                    =~= segs@[last as int]@);
            }
        }
        ParsedApplication {
            title: string_of(&title),
            subtitle: string_of(&subtitle),
            uid: pid.to_string(),
            text: CopyText { copy: string_of(&copy) },
            arg: pid.to_string(),
            icon: Icon { path: icon },
            app_type,
        }
    }
}

} // verus!
