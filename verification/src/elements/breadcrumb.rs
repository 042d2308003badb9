//! The flat breadcrumb: the root `/` and then one ` › name` segment per path component,
//! laid end to end; every segment but the last (the current directory) is a link.
use vstd::prelude::*;
use crate::param_spec::views;

verus! {

/// The displayed segments of a path: `/` alone for an empty path (or one empty
/// component), else `/` followed by ` › name` for each component.
pub open spec fn segments_spec(path: Seq<Seq<char>>) -> Seq<Seq<char>> {
    if path.len() == 0 || (path.len() == 1 && path[0].len() == 0) {
        seq!["/"@]
    } else {
        seq!["/"@] + Seq::new(path.len(), |i: int| " \u{203a} "@ + path[i])
    }
}

/// Every component of a path is shown: after the root segment `/`, component `i`
/// becomes segment `i + 1`, written ` › ` and the component, so there is one segment
/// more than components. Only an empty path, or one made of a single empty component,
/// shows the root alone.
pub proof fn lemma_every_component_shown(path: Seq<Seq<char>>)
    ensures
        segments_spec(path)[0] == "/"@,
        path.len() == 0 || (path.len() == 1 && path[0].len() == 0) ==> segments_spec(path).len() == 1,
        !(path.len() == 0 || (path.len() == 1 && path[0].len() == 0)) ==> {
            &&& segments_spec(path).len() == path.len() + 1
            &&& forall|i: int| 0 <= i < path.len() ==> #[trigger] segments_spec(path)[i + 1] == " \u{203a} "@ + path[i]
        },
{
}


pub struct Breadcrumb {
    pub hovered: bool,
    /// The displayed segments.
    pub path: Vec<String>,
    pub hovered_seg: Option<usize>,
    pub clicked_seg: Option<usize>,
}

impl Breadcrumb {
    /// No segments, nothing hovered or clicked.
    pub fn new() -> (b: Breadcrumb)
        ensures
            b.path@.len() == 0,
            !b.hovered,
            b.hovered_seg is None,
            b.clicked_seg is None,
    {
        Breadcrumb { hovered: false, path: Vec::new(), hovered_seg: None, clicked_seg: None }
    }

    /// Shows the path `segments`.
    pub fn set_path(&mut self, segments: &[String])
        ensures
            views(final(self).path@) == segments_spec(views(segments@)),
            final(self).hovered == old(self).hovered,
            final(self).hovered_seg == old(self).hovered_seg,
            final(self).clicked_seg == old(self).clicked_seg,
    {
        let mut s: Vec<String> = Vec::new();
        let root = "/".to_owned();
        s.push(root);
        let ghost p = views(segments@);
        if segments.len() == 0 || (segments.len() == 1 && segments[0].as_str().is_empty()) {
            proof {
                assert(views(s@) =~= seq!["/"@]);
            }
        } else {
            let ghost target = Seq::new(p.len(), |i: int| " \u{203a} "@ + p[i]);
            let mut i: usize = 0;
            while i < segments.len()
                invariant
                    i <= segments@.len(),
                    p == views(segments@),
                    target == Seq::new(p.len(), |i: int| " \u{203a} "@ + p[i]),
                    views(s@) == seq!["/"@] + target.take(i as int),
                decreases segments.len() - i,
            {
                let mut seg = String::new();
                seg.append(" \u{203a} ");
                seg.append(segments[i].as_str());
                let ghost before = s@;
                s.push(seg);
                proof {
                    assert(p[i as int] == segments@[i as int]@);
                    assert(views(s@) =~= views(before).push(seg@));
                    assert(target.take(i + 1) =~= target.take(i as int).push(target[i as int]));
                    assert(views(s@) =~= seq!["/"@] + target.take(i + 1));
                }
                i = i + 1;
            }
            proof {
                assert(target.take(i as int) =~= target);
                if p.len() == 1 {
                    assert(p[0] == segments@[0]@);
                }
            }
        }
        self.path = s;
    }

    /// A press on segment `seg` (`None`: off the segments): a left press on any
    /// segment but the last records it as clicked and is taken.
    pub fn press(&mut self, left_press: bool, seg: Option<usize>) -> (taken: bool)
        requires
            seg matches Some(i) ==> i < old(self).path@.len(),
        ensures
            taken == (left_press && (seg matches Some(i) && i + 1 < old(self).path@.len())),
            final(self).clicked_seg == if taken { seg } else { old(self).clicked_seg },
            final(self).path == old(self).path,
            final(self).hovered == old(self).hovered,
            final(self).hovered_seg == old(self).hovered_seg,
    {
        if !left_press {
            return false;
        }
        match seg {
            Some(i) => {
                if i < self.path.len() - 1 {
                    self.clicked_seg = Some(i);
                    true
                } else {
                    false
                }
            },
            None => false,
        }
    }

    /// A pointer move: `hit` tells whether it is over the breadcrumb and `seg` which
    /// segment it is over. Reports whether the hover changed.
    pub fn cursor_moved(&mut self, hit: bool, seg: Option<usize>) -> (changed: bool)
        ensures
            final(self).hovered == hit,
            final(self).hovered_seg == (if hit { seg } else { None }),
            changed == (old(self).hovered != hit || old(self).hovered_seg != final(self).hovered_seg),
            final(self).path == old(self).path,
            final(self).clicked_seg == old(self).clicked_seg,
    {
        let was = self.hovered;
        let old_seg = self.hovered_seg;
        self.hovered = hit;
        self.hovered_seg = if hit { seg } else { None };
        let seg_changed = match (old_seg, self.hovered_seg) {
            (Some(a), Some(b)) => a != b,
            (None, None) => false,
            _ => true,
        };
        was != self.hovered || seg_changed
    }

    /// The clicked segment, if one was clicked since the last read; reading clears it.
    pub fn path_click(&mut self) -> (c: Option<usize>)
        ensures
            c == old(self).clicked_seg,
            final(self).clicked_seg is None,
            final(self).path == old(self).path,
            final(self).hovered == old(self).hovered,
            final(self).hovered_seg == old(self).hovered_seg,
    {
        let c = self.clicked_seg;
        self.clicked_seg = None;
        c
    }
}

} // verus!
