//! The breadcrumb's path model: the segments of a directory path, the text of the path up
//! to a segment, and what a press, a hover or a "Copy Path" does to its state. Where on
//! the strip a pointer falls is measured by the host, which hands the segment over.
use vstd::prelude::*;
use crate::adapted::Adapted;
use crate::param_spec::views;
use crate::text::{to_chars, chars_to_string, split_on, lemma_split_nonempty};

verus! {

/// The root marker, `/`.
pub open spec fn root() -> Seq<char> {
    seq!['/']
}

/// The path text of the first `k` segments: the root `/`, then each segment, with a `/`
/// before every segment that follows something other than the bare root.
pub open spec fn path_prefix(path: Seq<Seq<char>>, k: nat) -> Seq<char>
    decreases k,
{
    if k == 0 || path.len() == 0 {
        root()
    } else if k > path.len() {
        path_prefix(path, path.len())
    } else {
        let p = path_prefix(path, (k - 1) as nat);
        if p == root() {
            p + path[k - 1]
        } else {
            p.push('/') + path[k - 1]
        }
    }
}

/// The path text up to segment `idx` (segment 0 being the root): the first
/// `min(idx, path.len())` path components.
pub open spec fn path_to_seg_spec(path: Seq<Seq<char>>, idx: int) -> Seq<char> {
    if idx <= 0 {
        root()
    } else if idx >= path.len() {
        path_prefix(path, path.len())
    } else {
        path_prefix(path, idx as nat)
    }
}

/// The displayed segments: the root `/`, then each path component.
pub open spec fn virtual_segs_spec(path: Seq<Seq<char>>) -> Seq<Seq<char>> {
    seq![root()] + path
}

/// The path text always begins with the root `/`.
pub proof fn lemma_path_prefix_rooted(path: Seq<Seq<char>>, k: nat)
    ensures
        path_prefix(path, k).len() >= 1,
        path_prefix(path, k)[0] == '/',
    decreases k,
{
    if k == 0 || path.len() == 0 {
    } else if k > path.len() {
        lemma_path_prefix_rooted(path, path.len());
    } else {
        lemma_path_prefix_rooted(path, (k - 1) as nat);
    }
}

/// The path up to a segment is a prefix of the path up to any later segment: walking
/// down the breadcrumb only ever appends.
pub proof fn lemma_path_to_seg_extends(path: Seq<Seq<char>>, i: int, j: int)
    requires
        i <= j,
    ensures
        path_to_seg_spec(path, i).len() <= path_to_seg_spec(path, j).len(),
        path_to_seg_spec(path, i) == path_to_seg_spec(path, j).take(path_to_seg_spec(path, i).len() as int),
    decreases j - i,
{
    if i == j {
        let p = path_to_seg_spec(path, i);
        assert(p.take(p.len() as int) =~= p);
    } else if j >= path.len() && i >= path.len() {
        let p = path_to_seg_spec(path, i);
        assert(p.take(p.len() as int) =~= p);
    } else if j > path.len() {
        lemma_path_to_seg_extends(path, i, path.len() as int);
    } else if j <= 0 {
        let p = path_to_seg_spec(path, i);
        assert(p.take(p.len() as int) =~= p);
    } else {
        // 0 < j <= path.len(): segment j adds one component after segment j - 1.
        lemma_path_to_seg_extends(path, i, j - 1);
        let a = path_to_seg_spec(path, i);
        let b = path_to_seg_spec(path, j - 1);
        let c = path_to_seg_spec(path, j);
        assert(b == path_prefix(path, (j - 1) as nat));
        assert(c == path_prefix(path, j as nat));
        if b == root() {
            assert(c =~= b + path[j - 1]);
        } else {
            assert(c =~= b.push('/') + path[j - 1]);
        }
        assert(b.len() <= c.len());
        assert(c.take(b.len() as int) =~= b);
        assert(c.take(a.len() as int) =~= b.take(a.len() as int));
    }
}

/// Appending characters that hold no separator extends the last piece of a split.
proof fn lemma_split_append_plain(p: Seq<char>, q: Seq<char>, sep: char)
    requires
        forall|j: int| 0 <= j < q.len() ==> q[j] != sep,
    ensures
        split_on(p + q, sep) == split_on(p, sep).update(
            split_on(p, sep).len() - 1,
            split_on(p, sep).last() + q,
        ),
    decreases q.len(),
{
    lemma_split_nonempty(p, sep);
    if q.len() == 0 {
        assert(p + q =~= p);
        let sp = split_on(p, sep);
        assert(sp.last() + q =~= sp.last());
        assert(sp.update(sp.len() - 1, sp.last()) =~= sp);
    } else {
        let q0 = q.drop_last();
        lemma_split_append_plain(p, q0, sep);
        assert((p + q).drop_last() =~= p + q0);
        assert((p + q).last() == q.last());
        let sp = split_on(p, sep);
        let s0 = split_on(p + q0, sep);
        assert(s0.len() == sp.len());
        assert(split_on(p + q, sep) =~= sp.update(sp.len() - 1, sp.last() + q)) by {
            assert(sp.last() + q =~= (sp.last() + q0).push(q.last()));
        }
    }
}

/// With nonempty segments, the path text of at least one segment is longer than the
/// bare root.
proof fn lemma_path_prefix_long(path: Seq<Seq<char>>, k: nat)
    requires
        1 <= k <= path.len(),
        forall|i: int| 0 <= i < path.len() ==> path[i].len() > 0,
    ensures
        path_prefix(path, k).len() >= 2,
    decreases k,
{
    lemma_path_prefix_rooted(path, (k - 1) as nat);
    if k > 1 {
        lemma_path_prefix_long(path, (k - 1) as nat);
    }
}

/// With segments that are nonempty and free of `/`, the path text up to segment `k`
/// splits on `/` into an empty piece (before the root slash) followed by exactly the
/// first `k` segments: the text names the segments it was built from, in order.
pub proof fn lemma_path_text_splits_to_segments(path: Seq<Seq<char>>, k: int)
    requires
        1 <= k <= path.len(),
        forall|i: int| 0 <= i < path.len() ==> path[i].len() > 0,
        forall|i: int, j: int| 0 <= i < path.len() && 0 <= j < path[i].len() ==> path[i][j] != '/',
    ensures
        split_on(path_to_seg_spec(path, k), '/') == seq![Seq::<char>::empty()] + path.take(k),
    decreases k,
{
    let seg = path[k - 1];
    assert forall|j: int| 0 <= j < seg.len() implies seg[j] != '/' by {
        assert(path[k - 1][j] != '/');
    }
    if k == 1 {
        assert(path_prefix(path, 0) == root());
        assert(path_prefix(path, 1) == root() + seg);
        assert(root().drop_last() =~= Seq::<char>::empty());
        assert(root().last() == '/');
        assert(split_on(Seq::<char>::empty(), '/') =~= seq![Seq::<char>::empty()]);
        assert(split_on(root(), '/') == split_on(Seq::<char>::empty(), '/').push(Seq::<char>::empty()));
        assert(split_on(root(), '/') =~= seq![Seq::<char>::empty(), Seq::<char>::empty()]);
        lemma_split_append_plain(root(), seg, '/');
        assert(Seq::<char>::empty() + seg =~= seg);
        assert(split_on(root() + seg, '/') =~= seq![Seq::<char>::empty()] + path.take(1));
    } else {
        lemma_path_text_splits_to_segments(path, k - 1);
        let p = path_prefix(path, (k - 1) as nat);
        lemma_path_prefix_long(path, (k - 1) as nat);
        assert(p != root());
        assert(path_prefix(path, k as nat) == p.push('/') + seg);
        assert(path_to_seg_spec(path, k - 1) == p);
        assert(p.push('/').drop_last() =~= p);
        lemma_split_nonempty(p, '/');
        let sp = split_on(p.push('/'), '/');
        assert(sp =~= split_on(p, '/').push(Seq::<char>::empty()));
        lemma_split_append_plain(p.push('/'), seg, '/');
        assert(Seq::<char>::empty() + seg =~= seg);
        assert(path.take(k) =~= path.take(k - 1).push(seg));
        assert(split_on(p.push('/') + seg, '/') =~= seq![Seq::<char>::empty()] + path.take(k));
    }
}

/// The path model of a breadcrumb bar.
pub struct Breadcrumb {
    pub path: Vec<String>,
    hovered: bool,
    hovered_seg: Option<usize>,
    clicked_seg: Option<usize>,
    pub right_clicked_seg: Option<usize>,
    pub raised: bool,
}

/// Owned copies of `v`.
fn clone_slice(v: &[String]) -> (r: Vec<String>)
    ensures
        views(r@) == views(v@),
{
    let mut r: Vec<String> = Vec::new();
    let mut i: usize = 0;
    while i < v.len()
        invariant
            i <= v@.len(),
            views(r@) == views(v@).take(i as int),
        decreases v.len() - i,
    {
        let s = v[i].clone();
        let ghost before = r@;
        r.push(s);
        proof {
            assert(views(r@) =~= views(before).push(s@));
            assert(views(r@) =~= views(v@).take(i + 1));
        }
        i = i + 1;
    }
    proof {
        assert(views(v@).take(i as int) =~= views(v@));
    }
    r
}

/// Appends the characters of `s` to `out`.
fn append_chars(out: &mut Vec<char>, s: &str)
    ensures
        final(out)@ == old(out)@ + s@,
{
    let c = to_chars(s);
    let mut i: usize = 0;
    while i < c.len()
        invariant
            i <= c@.len(),
            c@ == s@,
            out@ == old(out)@ + c@.take(i as int),
        decreases c.len() - i,
    {
        out.push(c[i]);
        proof {
            assert(c@.take(i + 1) =~= c@.take(i as int).push(c@[i as int]));
        }
        i = i + 1;
    }
    proof {
        assert(c@.take(i as int) =~= c@);
    }
}

impl Breadcrumb {
    /// The path components, as text.
    pub closed spec fn segments(&self) -> Seq<Seq<char>> {
        views(self.path@)
    }

    /// The segment the last right press fell on (`None`: between segments).
    pub closed spec fn right_clicked(&self) -> Option<usize> {
        self.right_clicked_seg
    }

    /// Whether the run stands raised out of the surface rather than sunk into it.
    pub closed spec fn is_raised(&self) -> bool {
        self.raised
    }

    /// Whether the pointer is over the widget.
    pub closed spec fn is_hovered(&self) -> bool {
        self.hovered
    }

    /// The segment under the pointer, if any.
    pub closed spec fn hovered_segment(&self) -> Option<usize> {
        self.hovered_seg
    }

    /// The segment clicked and not yet read, if any.
    pub closed spec fn clicked(&self) -> Option<usize> {
        self.clicked_seg
    }

    /// An empty path, nothing hovered or clicked, in the sunk stance.
    pub fn new() -> (b: Adapted<Breadcrumb>)
        ensures
            b.inner.segments().len() == 0,
            !b.inner.is_hovered(),
            b.inner.hovered_segment() is None,
            b.inner.clicked() is None,
            b.inner.right_clicked() is None,
            !b.inner.is_raised(),
    {
        Adapted::new(Breadcrumb {
            path: Vec::new(),
            hovered: false,
            hovered_seg: None,
            clicked_seg: None,
            right_clicked_seg: None,
            raised: false,
        })
    }

    /// Sets the relief stance: raised out of the surface, or sunk into it.
    pub fn set_raised(&mut self, raised: bool)
        ensures
            final(self).is_raised() == raised,
            final(self).segments() == old(self).segments(),
            final(self).is_hovered() == old(self).is_hovered(),
            final(self).hovered_segment() == old(self).hovered_segment(),
            final(self).clicked() == old(self).clicked(),
            final(self).right_clicked() == old(self).right_clicked(),
    {
        self.raised = raised;
    }

    /// The path text up to segment `idx`: `/` for the root, `/a/b` for the second
    /// component of `a/b`. An index past the end gives the whole path.
    pub fn path_to_seg(&self, idx: usize) -> (s: String)
        ensures
            s@ == path_to_seg_spec(self.segments(), idx as int),
    {
        let mut out: Vec<char> = Vec::new();
        out.push('/');
        let n: usize = if idx < self.path.len() { idx } else { self.path.len() };
        let mut i: usize = 0;
        proof {
            assert(out@ =~= root());
        }
        while i < n
            invariant
                i <= n,
                n <= self.path@.len(),
                n == (if idx < self.path@.len() { idx as int } else { self.path@.len() as int }),
                out@ == path_prefix(self.segments(), i as nat),
            decreases n - i,
        {
            let ghost before = out@;
            let ghost p = self.segments();
            assert(p[i as int] == self.path@[i as int]@);
            assert(path_prefix(p, (i + 1) as nat) == (if before == root() {
                before + p[i as int]
            } else {
                before.push('/') + p[i as int]
            }));
            let bare = out.len() == 1 && out[0] == '/';
            proof {
                lemma_path_prefix_rooted(p, i as nat);
                assert(bare == (before == root())) by {
                    if out@.len() == 1 && out@[0] == '/' {
                        assert(out@ =~= root());
                    }
                }
            }
            if !bare {
                out.push('/');
            }
            append_chars(&mut out, self.path[i].as_str());
            i = i + 1;
        }
        proof {
            let p = self.segments();
            if idx == 0 || p.len() == 0 {
                assert(path_prefix(p, 0) == root());
            }
        }
        chars_to_string(&out)
    }

    /// The displayed segments: the root `/`, then each path component.
    pub fn virtual_segs(&self) -> (segs: Vec<String>)
        ensures
            views(segs@) == virtual_segs_spec(self.segments()),
    {
        let mut segs: Vec<String> = Vec::new();
        let root_text = chars_to_string(&vec!['/']);
        segs.push(root_text);
        let mut i: usize = 0;
        proof {
            assert(root_text@ =~= root());
        }
        while i < self.path.len()
            invariant
                i <= self.path@.len(),
                views(segs@) == seq![root()] + self.segments().take(i as int),
            decreases self.path.len() - i,
        {
            let s = self.path[i].clone();
            let ghost before = segs@;
            segs.push(s);
            proof {
                assert(views(segs@) =~= views(before).push(s@));
                assert(self.segments().take(i + 1) =~= self.segments().take(i as int).push(s@));
                assert(views(segs@) =~= seq![root()] + self.segments().take(i + 1));
            }
            i = i + 1;
        }
        proof {
            assert(self.segments().take(i as int) =~= self.segments());
        }
        segs
    }

    /// Replaces the path.
    pub fn set_path(&mut self, segments: &[String])
        ensures
            final(self).segments() == views(segments@),
            final(self).is_hovered() == old(self).is_hovered(),
            final(self).hovered_segment() == old(self).hovered_segment(),
            final(self).clicked() == old(self).clicked(),
            final(self).right_clicked() == old(self).right_clicked(),
            final(self).is_raised() == old(self).is_raised(),
    {
        self.path = clone_slice(segments);
    }

    /// The clicked segment, if one was clicked since the last read; reading clears it.
    pub fn path_click(&mut self) -> (c: Option<usize>)
        ensures
            c == old(self).clicked(),
            final(self).clicked() is None,
            final(self).segments() == old(self).segments(),
            final(self).is_hovered() == old(self).is_hovered(),
            final(self).hovered_segment() == old(self).hovered_segment(),
            final(self).right_clicked() == old(self).right_clicked(),
            final(self).is_raised() == old(self).is_raised(),
    {
        let c = self.clicked_seg;
        self.clicked_seg = None;
        c
    }

    /// A left press on segment `seg` (`None`: between segments). Every segment but the
    /// last, the current directory, is a link: pressing one records it as clicked and
    /// the press is taken; any other press is left to what lies beneath.
    pub fn press_segment(&mut self, seg: Option<usize>) -> (taken: bool)
        ensures
            taken == (seg matches Some(i) && i < old(self).segments().len()),
            final(self).clicked() == (if taken { seg } else { old(self).clicked() }),
            final(self).segments() == old(self).segments(),
            final(self).is_hovered() == old(self).is_hovered(),
            final(self).hovered_segment() == old(self).hovered_segment(),
            final(self).right_clicked() == old(self).right_clicked(),
            final(self).is_raised() == old(self).is_raised(),
    {
        match seg {
            Some(i) => {
                if i < self.path.len() {
                    self.clicked_seg = Some(i);
                    true
                } else {
                    false
                }
            },
            None => false,
        }
    }

    /// A right press on segment `seg`: records the segment the context menu will act on
    /// (the whole path when `None`). The press is always taken.
    pub fn right_press_segment(&mut self, seg: Option<usize>) -> (taken: bool)
        ensures
            taken,
            final(self).right_clicked() == seg,
            final(self).segments() == old(self).segments(),
            final(self).is_hovered() == old(self).is_hovered(),
            final(self).hovered_segment() == old(self).hovered_segment(),
            final(self).clicked() == old(self).clicked(),
            final(self).is_raised() == old(self).is_raised(),
    {
        self.right_clicked_seg = seg;
        true
    }

    /// A pointer move: `inside` tells whether the pointer is within the widget's box and
    /// `seg` which segment it is over. Returns whether the hover state changed.
    pub fn pointer_moved(&mut self, inside: bool, seg: Option<usize>) -> (changed: bool)
        ensures
            final(self).is_hovered() == inside,
            final(self).hovered_segment() == (if inside { seg } else { None }),
            changed == (old(self).is_hovered() != final(self).is_hovered()
                || old(self).hovered_segment() != final(self).hovered_segment()),
            final(self).segments() == old(self).segments(),
            final(self).clicked() == old(self).clicked(),
            final(self).right_clicked() == old(self).right_clicked(),
            final(self).is_raised() == old(self).is_raised(),
    {
        let was = self.hovered;
        let old_seg = self.hovered_seg;
        self.hovered = inside;
        self.hovered_seg = if inside { seg } else { None };
        let seg_changed = match (old_seg, self.hovered_seg) {
            (Some(a), Some(b)) => a != b,
            (None, None) => false,
            _ => true,
        };
        was != self.hovered || seg_changed
    }

    /// The pointer left the widget. Returns whether anything was hovered.
    pub fn mouse_leave(&mut self) -> (changed: bool)
        ensures
            changed == (old(self).is_hovered() || old(self).hovered_segment() is Some),
            !final(self).is_hovered(),
            final(self).hovered_segment() is None,
            final(self).segments() == old(self).segments(),
            final(self).clicked() == old(self).clicked(),
            final(self).right_clicked() == old(self).right_clicked(),
            final(self).is_raised() == old(self).is_raised(),
    {
        let changed = self.hovered || self.hovered_seg.is_some();
        self.hovered = false;
        self.hovered_seg = None;
        changed
    }

    /// The text "Copy Path" puts on the clipboard: the path up to the right-pressed
    /// segment, or the whole path when the press fell between segments.
    pub fn copy_path_text(&self) -> (s: String)
        ensures
            s@ == path_to_seg_spec(
                self.segments(),
                match self.right_clicked() {
                    Some(i) => i as int,
                    None => self.segments().len() as int,
                },
            ),
    {
        let idx = match self.right_clicked_seg {
            Some(i) => i,
            None => self.path.len(),
        };
        self.path_to_seg(idx)
    }
}

} // verus!
