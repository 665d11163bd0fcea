//! Text and positions shown around the panes.
use vstd::prelude::*;

verus! {

/// The application name, used as the window title when nothing is open.
pub open spec fn app_title() -> Seq<char> {
    seq!['V', 'i', 'e', 'w', 'S', 'k', 'a', 't', 'e', 'r']
}

/// The window title for the file names of the panes' current images (one
/// entry per pane, `None` when a pane shows nothing): with two or more
/// panes `"Left: {left} | Right: {right}"` (the application name when both
/// are missing or empty), otherwise the first pane's name or the
/// application name.
pub open spec fn title_text(names: Seq<Option<Seq<char>>>) -> Seq<char> {
    if names.len() >= 2 {
        let left = match names[0] {
            Some(n) => n,
            None => Seq::<char>::empty(),
        };
        let right = match names[1] {
            Some(n) => n,
            None => Seq::<char>::empty(),
        };
        if left.len() == 0 && right.len() == 0 {
            app_title()
        } else {
            seq!['L', 'e', 'f', 't', ':', ' '] + left + seq![' ', '|', ' ', 'R', 'i', 'g', 'h', 't', ':', ' ']
                + right
        }
    } else if names.len() == 1 && names[0] is Some {
        names[0].unwrap()
    } else {
        app_title()
    }
}

/// The window title for the file names of the panes' current images.
pub fn window_title(names: &Vec<Option<String>>) -> (s: String)
    ensures
        s@ == title_text(names@.map_values(|n: Option<String>| match n {
            Some(s) => Some(s@),
            None => None,
        })),
{
    let ghost views = names@.map_values(|n: Option<String>| match n {
        Some(s) => Some(s@),
        None => None,
    });
    proof {
        reveal_strlit("ViewSkater");
        reveal_strlit("Left: ");
        reveal_strlit(" | Right: ");
    }
    if names.len() >= 2 {
        let empty = String::new();
        let left: &String = match &names[0] {
            Some(n) => n,
            None => &empty,
        };
        let right: &String = match &names[1] {
            Some(n) => n,
            None => &empty,
        };
        assert(views[0] == match names@[0] {
            Some(s) => Some(s@),
            None => None::<Seq<char>>,
        });
        assert(views[1] == match names@[1] {
            Some(s) => Some(s@),
            None => None::<Seq<char>>,
        });
        if left.as_str().unicode_len() == 0 && right.as_str().unicode_len() == 0 {
            String::from_str("ViewSkater")
        } else {
            let mut s = String::from_str("Left: ");
            s.append(left.as_str());
            s.append(" | Right: ");
            s.append(right.as_str());
            s
        }
    } else if names.len() == 1 {
        assert(views[0] == match names@[0] {
            Some(s) => Some(s@),
            None => None::<Seq<char>>,
        });
        match &names[0] {
            Some(n) => n.clone(),
            None => String::from_str("ViewSkater"),
        }
    } else {
        String::from_str("ViewSkater")
    }
}

/// Position of the shared navigation slider for panes of `(file count,
/// current index)`: the largest file count, and the largest current index
/// among the panes that have files (0 when none has).
pub fn slider_position(panes: &Vec<(usize, usize)>) -> (r: (usize, usize))
    ensures
        forall|i: int| 0 <= i < panes@.len() ==> (#[trigger] panes@[i]).0 <= r.0,
        panes@.len() > 0 ==> exists|i: int| 0 <= i < panes@.len() && (#[trigger] panes@[i]).0 == r.0,
        panes@.len() == 0 ==> r.0 == 0,
        forall|i: int| 0 <= i < panes@.len() && (#[trigger] panes@[i]).0 > 0 ==> panes@[i].1 <= r.1,
        r.1 == 0 || exists|i: int| 0 <= i < panes@.len() && (#[trigger] panes@[i]).0 > 0 && panes@[i].1 == r.1,
{
    let mut max_images: usize = 0;
    let mut current: usize = 0;
    let mut i: usize = 0;
    while i < panes.len()
        invariant
            i <= panes@.len(),
            forall|j: int| 0 <= j < i ==> (#[trigger] panes@[j]).0 <= max_images,
            i > 0 ==> exists|j: int| 0 <= j < i && (#[trigger] panes@[j]).0 == max_images,
            i == 0 ==> max_images == 0,
            forall|j: int| 0 <= j < i && (#[trigger] panes@[j]).0 > 0 ==> panes@[j].1 <= current,
            current == 0 || exists|j: int| 0 <= j < i && (#[trigger] panes@[j]).0 > 0 && panes@[j].1 == current,
        decreases panes@.len() - i,
    {
        let (n, c) = panes[i];
        if i == 0 || n > max_images {
            max_images = n;
        }
        if n > 0 && c > current {
            current = c;
        }
        i = i + 1;
    }
    (max_images, current)
}

} // verus!
