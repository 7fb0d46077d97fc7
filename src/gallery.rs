use vstd::prelude::*;

use crate::error::GalleryError;

verus! {

/// The index after `i` in a ring of `n` items.
pub open spec fn next_index(i: int, n: int) -> int {
    (i + 1) % n
}

/// The index before `i` in a ring of `n` items.
pub open spec fn prev_index(i: int, n: int) -> int {
    (i + n - 1) % n
}

/// Where `k` steps forward from `i` lead in a ring of `n` items.
pub open spec fn steps_forward(i: int, n: int, k: nat) -> int
    decreases k,
{
    if k == 0 {
        i
    } else {
        next_index(steps_forward(i, n, (k - 1) as nat), n)
    }
}

proof fn lemma_steps_forward_mod(i: int, n: int, k: nat)
    requires
        0 <= i < n,
    ensures
        steps_forward(i, n, k) == (i + k) % n,
    decreases k,
{
    if k == 0 {
        vstd::arithmetic::div_mod::lemma_small_mod(i as nat, n as nat);
    } else {
        lemma_steps_forward_mod(i, n, (k - 1) as nat);
        let p = i + k - 1;
        assert(((p % n) + 1) % n == (p + 1) % n) by {
            vstd::arithmetic::div_mod::lemma_add_mod_noop(p, 1, n);
            vstd::arithmetic::div_mod::lemma_mod_twice(1, n);
            vstd::arithmetic::div_mod::lemma_add_mod_noop(p % n, 1, n);
            vstd::arithmetic::div_mod::lemma_mod_twice(p, n);
        }
    }
}

/// Stepping forward once per item, from any valid index, comes back to it.
pub proof fn lemma_full_cycle_returns(i: int, n: int)
    requires
        0 <= i < n,
    ensures
        steps_forward(i, n, n as nat) == i,
{
    lemma_steps_forward_mod(i, n, n as nat);
    vstd::arithmetic::div_mod::lemma_mod_add_multiples_vanish(i, n);
    vstd::arithmetic::div_mod::lemma_small_mod(i as nat, n as nat);
}

/// What one key press asks of the gallery.
#[derive(Clone, Copy, Debug, PartialEq, Eq, Structural)]
pub enum Command {
    Quit,
    SelectNext,
    SelectPrev,
    /// Reserved for panning; does nothing yet.
    PanLeft,
    /// Reserved for panning; does nothing yet.
    PanRight,
    /// Any other key; does nothing.
    Ignore,
}

/// The command of a character key: `q` quits, `j` and `k` move the selection
/// down and up, `h` and `l` pan.
pub fn command_for_char(c: char) -> (r: Command)
    ensures
        r == (if c == 'q' {
            Command::Quit
        } else if c == 'j' {
            Command::SelectNext
        } else if c == 'k' {
            Command::SelectPrev
        } else if c == 'h' {
            Command::PanLeft
        } else if c == 'l' {
            Command::PanRight
        } else {
            Command::Ignore
        }),
{
    match c {
        'q' => Command::Quit,
        'j' => Command::SelectNext,
        'k' => Command::SelectPrev,
        'h' => Command::PanLeft,
        'l' => Command::PanRight,
        _ => Command::Ignore,
    }
}

/// The gallery's state: a fixed, non-empty list of image names and which of
/// them is selected.
pub struct App {
    items: Vec<String>,
    selected_image_index: usize,
}

impl App {
    /// The image names, in order.
    pub closed spec fn names(&self) -> Seq<String> {
        self.items@
    }

    /// The position of the selected name.
    pub closed spec fn index(&self) -> int {
        self.selected_image_index as int
    }

    /// The selection points into a non-empty list.
    pub open spec fn wf(&self) -> bool {
        0 <= self.index() < self.names().len()
    }

    /// Starts a gallery over `items` with the first one selected; a gallery
    /// needs at least one image.
    pub fn new(items: Vec<String>) -> (r: Result<App, GalleryError>)
        ensures
            r is Err <==> items@.len() == 0,
            match r {
                Ok(app) => app.wf() && app.names() == items@ && app.index() == 0,
                Err(e) => e == GalleryError::NoImagesFound,
            },
    {
        if items.len() == 0 {
            return Err(GalleryError::NoImagesFound);
        }
        Ok(App { items, selected_image_index: 0 })
    }

    /// Selects the next image, going from the last back to the first.
    pub fn next_image(&mut self)
        requires
            old(self).wf(),
        ensures
            final(self).wf(),
            final(self).names() == old(self).names(),
            final(self).index() == next_index(old(self).index(), old(self).names().len() as int),
    {
        let n = self.items.len();
        let mut i = self.selected_image_index + 1;
        if i >= n {
            i = 0;
        }
        proof {
            let idx = self.selected_image_index as int;
            if idx + 1 < n {
                vstd::arithmetic::div_mod::lemma_small_mod((idx + 1) as nat, n as nat);
            } else {
                vstd::arithmetic::div_mod::lemma_mod_self_0(n as int);
            }
        }
        self.selected_image_index = i;
    }

    /// Selects the previous image, going from the first back to the last.
    pub fn prev_image(&mut self)
        requires
            old(self).wf(),
        ensures
            final(self).wf(),
            final(self).names() == old(self).names(),
            final(self).index() == prev_index(old(self).index(), old(self).names().len() as int),
    {
        let n = self.items.len();
        proof {
            let idx = self.selected_image_index as int;
            if idx == 0 {
                vstd::arithmetic::div_mod::lemma_small_mod((n - 1) as nat, n as nat);
            } else {
                vstd::arithmetic::div_mod::lemma_mod_add_multiples_vanish(idx - 1, n as int);
                vstd::arithmetic::div_mod::lemma_small_mod((idx - 1) as nat, n as nat);
            }
        }
        if self.selected_image_index == 0 {
            self.selected_image_index = n - 1;
        } else {
            self.selected_image_index = self.selected_image_index - 1;
        }
    }

    /// Carries out `cmd`; the result tells whether the gallery keeps running.
    pub fn handle(&mut self, cmd: Command) -> (running: bool)
        requires
            old(self).wf(),
        ensures
            final(self).wf(),
            final(self).names() == old(self).names(),
            running <==> cmd != Command::Quit,
            final(self).index() == (match cmd {
                Command::SelectNext => next_index(old(self).index(), old(self).names().len() as int),
                Command::SelectPrev => prev_index(old(self).index(), old(self).names().len() as int),
                _ => old(self).index(),
            }),
    {
        match cmd {
            Command::Quit => false,
            Command::SelectNext => {
                self.next_image();
                true
            },
            Command::SelectPrev => {
                self.prev_image();
                true
            },
            _ => true,
        }
    }

    /// The position of the selected image.
    pub fn selected_index(&self) -> (r: usize)
        ensures
            r == self.index(),
    {
        self.selected_image_index
    }

    /// The name of the selected image.
    pub fn selected_name(&self) -> (r: &String)
        requires
            self.wf(),
        ensures
            r == self.names()[self.index()],
    {
        &self.items[self.selected_image_index]
    }

    /// All image names, in order.
    pub fn items(&self) -> (r: &Vec<String>)
        ensures
            r@ == self.names(),
    {
        &self.items
    }
}

} // verus!
