//! Requirement trees for the policy editor: a requirement taken apart into
//! a binary tree of blocks, put back together, marked for replacement, and
//! the editor's block selection on the pyramid that shows it.
use vstd::prelude::*;
use vstd::string::*;

verus! {

/// A requirement that a policy places on an action: logical combinations,
/// a capability (by its code), tests on data bytes, or none.
#[derive(Debug, PartialEq, Eq)]
pub enum Requirement {
    And(Box<Requirement>, Box<Requirement>),
    Or(Box<Requirement>, Box<Requirement>),
    Has(u8),
    DataByte2InSet(u8),
    DataByte2Is(u8),
    DataByte2IsNot(u8),
    DataByte3InSet(u8),
    DataByte3Is(u8),
    DataByte3IsNot(u8),
    DataBytes2And3InSet(u8),
    Nil,
}

/// A copy of a requirement.
pub fn copy_requirement(r: &Requirement) -> (c: Requirement)
    ensures
        c == *r,
    decreases r,
{
    match r {
        Requirement::And(a, b) => Requirement::And(
            Box::new(copy_requirement(a)),
            Box::new(copy_requirement(b)),
        ),
        Requirement::Or(a, b) => Requirement::Or(
            Box::new(copy_requirement(a)),
            Box::new(copy_requirement(b)),
        ),
        Requirement::Has(c) => Requirement::Has(*c),
        Requirement::DataByte2InSet(b) => Requirement::DataByte2InSet(*b),
        Requirement::DataByte2Is(b) => Requirement::DataByte2Is(*b),
        Requirement::DataByte2IsNot(b) => Requirement::DataByte2IsNot(*b),
        Requirement::DataByte3InSet(b) => Requirement::DataByte3InSet(*b),
        Requirement::DataByte3Is(b) => Requirement::DataByte3Is(*b),
        Requirement::DataByte3IsNot(b) => Requirement::DataByte3IsNot(*b),
        Requirement::DataBytes2And3InSet(b) => Requirement::DataBytes2And3InSet(*b),
        Requirement::Nil => Requirement::Nil,
    }
}

/// One block of a requirement tree: a logical function, a leaf
/// requirement, nothing, or the marker of the block to be replaced.
#[derive(Clone, Copy, Debug, PartialEq, Eq, Structural)]
pub enum Req {
    And,
    Or,
    Has(u8),
    DataByte2InSet(u8),
    DataByte2Is(u8),
    DataByte2IsNot(u8),
    DataByte3InSet(u8),
    DataByte3Is(u8),
    DataByte3IsNot(u8),
    DataBytes2And3InSet(u8),
    Nil,
    Marker,
}

/// A block with its two operands; missing operands count as empty blocks.
#[derive(Debug)]
pub struct ReqTree {
    pub r: Req,
    pub left: Option<Box<ReqTree>>,
    pub right: Option<Box<ReqTree>>,
}

pub open spec fn is_logic(r: Req) -> bool {
    r is And || r is Or
}

/// The empty block.
pub open spec fn none_tree() -> ReqTree {
    ReqTree { r: Req::Nil, left: None, right: None }
}

/// The left operand, or the empty block.
pub open spec fn tl(t: ReqTree) -> ReqTree {
    match t.left {
        Some(l) => *l,
        None => none_tree(),
    }
}

/// The right operand, or the empty block.
pub open spec fn tr(t: ReqTree) -> ReqTree {
    match t.right {
        Some(r) => *r,
        None => none_tree(),
    }
}

/// The requirement that a block stands for, given its operands' requirements.
pub open spec fn spec_compose(
    r: Req,
    left: Option<Requirement>,
    right: Option<Requirement>,
) -> Result<Requirement, ()> {
    match r {
        Req::And => match (left, right) {
            (Some(l), Some(rr)) => Ok(Requirement::And(Box::new(l), Box::new(rr))),
            _ => Err(()),
        },
        Req::Or => match (left, right) {
            (Some(l), Some(rr)) => Ok(Requirement::Or(Box::new(l), Box::new(rr))),
            _ => Err(()),
        },
        Req::Has(c) => Ok(Requirement::Has(c)),
        Req::DataByte2InSet(b) => Ok(Requirement::DataByte2InSet(b)),
        Req::DataByte2Is(b) => Ok(Requirement::DataByte2Is(b)),
        Req::DataByte2IsNot(b) => Ok(Requirement::DataByte2IsNot(b)),
        Req::DataByte3InSet(b) => Ok(Requirement::DataByte3InSet(b)),
        Req::DataByte3Is(b) => Ok(Requirement::DataByte3Is(b)),
        Req::DataByte3IsNot(b) => Ok(Requirement::DataByte3IsNot(b)),
        Req::DataBytes2And3InSet(b) => Ok(Requirement::DataBytes2And3InSet(b)),
        Req::Nil => Ok(Requirement::Nil),
        Req::Marker => Err(()),
    }
}

/// An operand's requirement; a missing operand is `Requirement::Nil`.
pub open spec fn operand_requirement(o: Option<Box<ReqTree>>) -> Result<Requirement, ()>
    decreases o,
{
    match o {
        Some(t) => spec_requirement(*t),
        None => Ok(Requirement::Nil),
    }
}

/// The requirement that a tree stands for: an error while a marker is left
/// in it, or a logical block lacks an operand's requirement.
pub open spec fn spec_requirement(t: ReqTree) -> Result<Requirement, ()>
    decreases t,
{
    if is_logic(t.r) {
        let l = operand_requirement(t.left);
        let r = operand_requirement(t.right);
        if l is Err || r is Err {
            Err(())
        } else {
            spec_compose(t.r, Some(l->Ok_0), Some(r->Ok_0))
        }
    } else {
        spec_compose(t.r, None, None)
    }
}

/// The tree of a requirement.
pub open spec fn spec_decompose(req: Requirement) -> ReqTree
    decreases req,
{
    match req {
        Requirement::And(l, r) => ReqTree {
            r: Req::And,
            left: Some(Box::new(spec_decompose(*l))),
            right: Some(Box::new(spec_decompose(*r))),
        },
        Requirement::Or(l, r) => ReqTree {
            r: Req::Or,
            left: Some(Box::new(spec_decompose(*l))),
            right: Some(Box::new(spec_decompose(*r))),
        },
        Requirement::Has(c) => ReqTree { r: Req::Has(c), left: None, right: None },
        Requirement::DataByte2InSet(b) => ReqTree { r: Req::DataByte2InSet(b), left: None, right: None },
        Requirement::DataByte2Is(b) => ReqTree { r: Req::DataByte2Is(b), left: None, right: None },
        Requirement::DataByte2IsNot(b) => ReqTree { r: Req::DataByte2IsNot(b), left: None, right: None },
        Requirement::DataByte3InSet(b) => ReqTree { r: Req::DataByte3InSet(b), left: None, right: None },
        Requirement::DataByte3Is(b) => ReqTree { r: Req::DataByte3Is(b), left: None, right: None },
        Requirement::DataByte3IsNot(b) => ReqTree { r: Req::DataByte3IsNot(b), left: None, right: None },
        Requirement::DataBytes2And3InSet(b) => ReqTree {
            r: Req::DataBytes2And3InSet(b),
            left: None,
            right: None,
        },
        Requirement::Nil => ReqTree { r: Req::Nil, left: None, right: None },
    }
}

/// Putting the tree of a requirement back together gives the requirement.
pub proof fn lemma_decompose_requirement(req: Requirement)
    ensures
        spec_requirement(spec_decompose(req)) == Ok::<Requirement, ()>(req),
    decreases req,
{
    match req {
        Requirement::And(l, r) => {
            lemma_decompose_requirement(*l);
            lemma_decompose_requirement(*r);
        },
        Requirement::Or(l, r) => {
            lemma_decompose_requirement(*l);
            lemma_decompose_requirement(*r);
        },
        _ => {},
    }
}

/// Takes a requirement apart into a tree of blocks.
pub fn decompose(req: Requirement) -> (t: ReqTree)
    ensures
        t == spec_decompose(req),
    decreases req,
{
    match req {
        Requirement::And(l, r) => {
            let left = decompose(*l);
            let right = decompose(*r);
            ReqTree { r: Req::And, left: Some(Box::new(left)), right: Some(Box::new(right)) }
        },
        Requirement::Or(l, r) => {
            let left = decompose(*l);
            let right = decompose(*r);
            ReqTree { r: Req::Or, left: Some(Box::new(left)), right: Some(Box::new(right)) }
        },
        Requirement::Has(c) => ReqTree { r: Req::Has(c), left: None, right: None },
        Requirement::DataByte2InSet(b) => ReqTree { r: Req::DataByte2InSet(b), left: None, right: None },
        Requirement::DataByte2Is(b) => ReqTree { r: Req::DataByte2Is(b), left: None, right: None },
        Requirement::DataByte2IsNot(b) => ReqTree { r: Req::DataByte2IsNot(b), left: None, right: None },
        Requirement::DataByte3InSet(b) => ReqTree { r: Req::DataByte3InSet(b), left: None, right: None },
        Requirement::DataByte3Is(b) => ReqTree { r: Req::DataByte3Is(b), left: None, right: None },
        Requirement::DataByte3IsNot(b) => ReqTree { r: Req::DataByte3IsNot(b), left: None, right: None },
        Requirement::DataBytes2And3InSet(b) => ReqTree {
            r: Req::DataBytes2And3InSet(b),
            left: None,
            right: None,
        },
        Requirement::Nil => ReqTree { r: Req::Nil, left: None, right: None },
    }
}

impl Req {
    /// The requirement of this block, given its operands' requirements; an
    /// error for a marker or for a logical block missing an operand.
    pub fn compose(self, left: Option<Requirement>, right: Option<Requirement>) -> (r: Result<
        Requirement,
        (),
    >)
        ensures
            r == spec_compose(self, left, right),
    {
        match self {
            Req::And => match (left, right) {
                (Some(l), Some(r)) => Ok(Requirement::And(Box::new(l), Box::new(r))),
                _ => Err(()),
            },
            Req::Or => match (left, right) {
                (Some(l), Some(r)) => Ok(Requirement::Or(Box::new(l), Box::new(r))),
                _ => Err(()),
            },
            Req::Has(c) => Ok(Requirement::Has(c)),
            Req::DataByte2InSet(b) => Ok(Requirement::DataByte2InSet(b)),
            Req::DataByte2Is(b) => Ok(Requirement::DataByte2Is(b)),
            Req::DataByte2IsNot(b) => Ok(Requirement::DataByte2IsNot(b)),
            Req::DataByte3InSet(b) => Ok(Requirement::DataByte3InSet(b)),
            Req::DataByte3Is(b) => Ok(Requirement::DataByte3Is(b)),
            Req::DataByte3IsNot(b) => Ok(Requirement::DataByte3IsNot(b)),
            Req::DataBytes2And3InSet(b) => Ok(Requirement::DataBytes2And3InSet(b)),
            Req::Nil => Ok(Requirement::Nil),
            Req::Marker => Err(()),
        }
    }

    pub fn not_none(&self) -> (b: bool)
        ensures
            b == !(*self is Nil),
    {
        !matches!(self, Req::Nil)
    }

    pub fn is_none(&self) -> (b: bool)
        ensures
            b == (*self is Nil),
    {
        matches!(self, Req::Nil)
    }

    pub fn is_marker(&self) -> (b: bool)
        ensures
            b == (*self is Marker),
    {
        matches!(self, Req::Marker)
    }

    pub fn is_logic_fn(&self) -> (b: bool)
        ensures
            b == is_logic(*self),
    {
        matches!(self, Req::And) || matches!(self, Req::Or)
    }
}

/// Tree `t` with the marker placed at `pos`: row 1 is the top block, row
/// `k + 1` has `2^k` blocks counted from the left; missing blocks are
/// added empty on the way.
pub open spec fn spec_mark(t: ReqTree, pos: (usize, usize)) -> ReqTree
    decreases pos.0,
{
    if pos.0 == 1 {
        ReqTree { r: Req::Marker, left: t.left, right: t.right }
    } else if pos.0 == 2 {
        if pos.1 == 0 {
            ReqTree { r: t.r, left: Some(Box::new(spec_mark(tl(t), (1, 0)))), right: t.right }
        } else {
            ReqTree { r: t.r, left: t.left, right: Some(Box::new(spec_mark(tr(t), (1, 0)))) }
        }
    } else if pos.0 == 3 {
        if pos.1 <= 1 {
            ReqTree { r: t.r, left: Some(Box::new(spec_mark(tl(t), (2, pos.1)))), right: t.right }
        } else {
            ReqTree {
                r: t.r,
                left: t.left,
                right: Some(Box::new(spec_mark(tr(t), (2, (pos.1 - 2) as usize)))),
            }
        }
    } else if pos.0 == 4 {
        if pos.1 <= 3 {
            ReqTree { r: t.r, left: Some(Box::new(spec_mark(tl(t), (3, pos.1)))), right: t.right }
        } else {
            ReqTree {
                r: t.r,
                left: t.left,
                right: Some(Box::new(spec_mark(tr(t), (3, (pos.1 - 4) as usize)))),
            }
        }
    } else {
        t
    }
}

pub open spec fn marked(t: ReqTree) -> bool {
    t.r is Marker
}

/// Where the marker is, searched row by row as the editor searches it.
pub open spec fn spec_mark_location(t: ReqTree) -> (usize, usize) {
    if marked(t) {
        (1, 0)
    } else if marked(tl(t)) {
        (2, 0)
    } else if marked(tr(t)) {
        (2, 1)
    } else if marked(tl(tl(t))) {
        (3, 0)
    } else if marked(tr(tl(t))) {
        (3, 1)
    } else if marked(tl(tr(t))) {
        (3, 2)
    } else if marked(tr(tr(t))) {
        (3, 3)
    } else if marked(tl(tl(tl(t)))) {
        (4, 0)
    } else if marked(tr(tl(tl(t)))) {
        (4, 2)
    } else if marked(tl(tr(tl(t)))) {
        (4, 3)
    } else if marked(tl(tl(tr(t)))) {
        (4, 4)
    } else if marked(tr(tl(tr(t)))) {
        (4, 6)
    } else if marked(tl(tr(tr(t)))) {
        (4, 7)
    } else {
        (0, 0)
    }
}

/// Tree `t` after replacing its first marker (top block first, then the
/// left operand, then the right one) with the top block of `req`'s tree,
/// and whether a marker was found. A block that becomes a leaf loses its operands.
pub open spec fn spec_replace_mark(t: ReqTree, req: Requirement) -> (ReqTree, bool)
    decreases t,
{
    if t.r is Marker {
        let nr = spec_decompose(req).r;
        if is_logic(nr) {
            (ReqTree { r: nr, left: t.left, right: t.right }, true)
        } else {
            (ReqTree { r: nr, left: None, right: None }, true)
        }
    } else {
        let lr = match t.left {
            Some(l) => {
                let x = spec_replace_mark(*l, req);
                (Some(Box::new(x.0)), x.1)
            },
            None => (None, false),
        };
        let rr = if lr.1 {
            (t.right, false)
        } else {
            match t.right {
                Some(r) => {
                    let x = spec_replace_mark(*r, req);
                    (Some(Box::new(x.0)), x.1)
                },
                None => (None, false),
            }
        };
        (ReqTree { r: t.r, left: lr.0, right: rr.0 }, lr.1 || rr.1)
    }
}

/// A tree with no marker in the rows that marking reaches.
pub open spec fn no_marker(t: ReqTree) -> bool {
    spec_mark_location(t) == (0usize, 0usize) && !marked(tr(tl(tl(t)))) && !marked(tr(tl(tr(t))))
        && !marked(tr(tr(tl(t)))) && !marked(tr(tr(tr(t))))
}

/// Placing the marker in a tree without one and then searching for it finds
/// it where it was placed: in the first three rows, and at the first block
/// of each half of the fourth row.
pub proof fn lemma_mark_then_locate(t: ReqTree, pos: (usize, usize))
    requires
        no_marker(t),
        (pos.0 == 1 && pos.1 == 0) || (pos.0 == 2 && pos.1 <= 1) || (pos.0 == 3 && pos.1 <= 3) || (
        pos.0 == 4 && (pos.1 == 0 || pos.1 == 4)),
    ensures
        spec_mark_location(spec_mark(t, pos)) == pos,
{
    reveal_with_fuel(spec_mark, 4);
}

/// Placing a marker puts one where the search looks first for it.
pub proof fn lemma_mark_top(t: ReqTree)
    ensures
        marked(spec_mark(t, (1, 0))),
{
}

/// Copies a whole tree.
pub fn copy_tree(t: &ReqTree) -> (c: ReqTree)
    ensures
        c == *t,
    decreases t,
{
    let left = match &t.left {
        Some(l) => Some(Box::new(copy_tree(l))),
        None => None,
    };
    let right = match &t.right {
        Some(r) => Some(Box::new(copy_tree(r))),
        None => None,
    };
    ReqTree { r: t.r, left, right }
}

fn operand_req(o: Option<Box<ReqTree>>) -> (res: Result<Requirement, ()>)
    ensures
        res == operand_requirement(o),
    decreases o,
{
    match o {
        Some(t) => (*t).requirement(),
        None => Ok(Requirement::Nil),
    }
}

impl ReqTree {
    pub fn req(&self) -> (r: Req)
        ensures
            r == self.r,
    {
        self.r
    }

    /// The requirement this tree stands for.
    pub fn requirement(self) -> (res: Result<Requirement, ()>)
        ensures
            res == spec_requirement(self),
        decreases self,
    {
        let ReqTree { r, left, right } = self;
        if r.is_logic_fn() {
            let l = operand_req(left);
            let rr = operand_req(right);
            match (l, rr) {
                (Ok(a), Ok(b)) => r.compose(Some(a), Some(b)),
                _ => Err(()),
            }
        } else {
            r.compose(None, None)
        }
    }

    /// The empty block.
    pub fn none() -> (t: ReqTree)
        ensures
            t == none_tree(),
    {
        ReqTree { r: Req::Nil, left: None, right: None }
    }

    /// A copy of the left operand, or the empty block.
    pub fn left(&self) -> (t: ReqTree)
        ensures
            t == tl(*self),
    {
        match &self.left {
            Some(l) => copy_tree(l),
            None => ReqTree::none(),
        }
    }

    /// A copy of the right operand, or the empty block.
    pub fn right(&self) -> (t: ReqTree)
        ensures
            t == tr(*self),
    {
        match &self.right {
            Some(r) => copy_tree(r),
            None => ReqTree::none(),
        }
    }

    /// Replaces the first marker with the top block of `r`'s tree; tells
    /// whether there was a marker.
    pub fn replace_mark(&mut self, r: Requirement) -> (found: bool)
        ensures
            (*final(self), found) == spec_replace_mark(*old(self), r),
        decreases *old(self),
    {
        if self.r.is_marker() {
            let rt = decompose(r);
            self.r = rt.r;
            if !self.r.is_logic_fn() {
                self.left = None;
                self.right = None;
            }
            return true;
        }
        let mut left_res = false;
        let mut right_res = false;
        match self.left.take() {
            Some(mut l) => {
                left_res = (&mut *l).replace_mark(copy_requirement(&r));
                self.left = Some(l);
            },
            None => {},
        }
        if !left_res {
            match self.right.take() {
                Some(mut rt) => {
                    right_res = (&mut *rt).replace_mark(r);
                    self.right = Some(rt);
                },
                None => {},
            }
        }
        left_res || right_res
    }

    /// Where the marker is (see `spec_mark_location`); `(0, 0)` for none.
    pub fn mark_location(&self) -> (pos: (usize, usize))
        ensures
            pos == spec_mark_location(*self),
    {
        if self.req().is_marker() {
            (1, 0)
        } else if self.left().req().is_marker() {
            (2, 0)
        } else if self.right().req().is_marker() {
            (2, 1)
        } else if self.left().left().req().is_marker() {
            (3, 0)
        } else if self.left().right().req().is_marker() {
            (3, 1)
        } else if self.right().left().req().is_marker() {
            (3, 2)
        } else if self.right().right().req().is_marker() {
            (3, 3)
        } else if self.left().left().left().req().is_marker() {
            (4, 0)
        } else if self.left().left().right().req().is_marker() {
            (4, 2)
        } else if self.left().right().left().req().is_marker() {
            (4, 3)
        } else if self.right().left().left().req().is_marker() {
            (4, 4)
        } else if self.right().left().right().req().is_marker() {
            (4, 6)
        } else if self.right().right().left().req().is_marker() {
            (4, 7)
        } else {
            (0, 0)
        }
    }

    /// Places the marker at `pos` (see `spec_mark`).
    pub fn mark(&mut self, pos: (usize, usize))
        ensures
            *final(self) == spec_mark(*old(self), pos),
        decreases pos.0,
    {
        if pos.0 == 1 {
            self.r = Req::Marker;
        } else if pos.0 == 2 {
            if pos.1 == 0 {
                let mut rl = self.left();
                rl.mark((1, 0));
                self.left = Some(Box::new(rl));
            } else {
                let mut rr = self.right();
                rr.mark((1, 0));
                self.right = Some(Box::new(rr));
            }
        } else if pos.0 == 3 {
            if pos.1 <= 1 {
                let mut rl = self.left();
                rl.mark((2, pos.1));
                self.left = Some(Box::new(rl));
            } else {
                let mut rr = self.right();
                rr.mark((2, pos.1 - 2));
                self.right = Some(Box::new(rr));
            }
        } else if pos.0 == 4 {
            if pos.1 <= 3 {
                let mut rl = self.left();
                rl.mark((3, pos.1));
                self.left = Some(Box::new(rl));
            } else {
                let mut rr = self.right();
                rr.mark((3, pos.1 - 4));
                self.right = Some(Box::new(rr));
            }
        }
    }
}

/// The decimal digit `d`.
pub open spec fn digit(d: nat) -> char {
    if d == 0 {
        '0'
    } else if d == 1 {
        '1'
    } else if d == 2 {
        '2'
    } else if d == 3 {
        '3'
    } else if d == 4 {
        '4'
    } else if d == 5 {
        '5'
    } else if d == 6 {
        '6'
    } else if d == 7 {
        '7'
    } else if d == 8 {
        '8'
    } else {
        '9'
    }
}

/// `n` in decimal, without leading zeros.
pub open spec fn decimal(n: nat) -> Seq<char>
    decreases n,
{
    if n < 10 {
        seq![digit(n)]
    } else {
        decimal(n / 10).push(digit(n % 10))
    }
}

pub(crate) fn digit_char(d: u8) -> (c: char)
    requires
        d < 10,
    ensures
        c == digit(d as nat),
{
    match d {
        0 => '0',
        1 => '1',
        2 => '2',
        3 => '3',
        4 => '4',
        5 => '5',
        6 => '6',
        7 => '7',
        8 => '8',
        _ => '9',
    }
}

/// The decimal digits of a byte.
pub fn decimal_u8(b: u8) -> (v: Vec<char>)
    ensures
        v@ == decimal(b as nat),
{
    let mut v: Vec<char> = Vec::new();
    if b >= 100 {
        v.push(digit_char(b / 100));
        v.push(digit_char(b / 10 % 10));
        v.push(digit_char(b % 10));
        proof {
            assert(decimal((b / 10) as nat) == decimal((b / 100) as nat).push(
                digit(((b / 10) % 10) as nat),
            ));
            assert(v@ =~= decimal(b as nat));
        }
    } else if b >= 10 {
        v.push(digit_char(b / 10));
        v.push(digit_char(b % 10));
        proof {
            assert(decimal((b / 10) as nat) == seq![digit((b / 10) as nat)]);
            assert(v@ =~= decimal(b as nat));
        }
    } else {
        v.push(digit_char(b));
        proof {
            assert(v@ =~= decimal(b as nat));
        }
    }
    v
}

/// The label of a block; a capability shows as `capability_name`.
pub open spec fn req_text(r: Req, capability_name: Seq<char>) -> Seq<char> {
    match r {
        Req::And => "And"@,
        Req::Or => "Or"@,
        Req::Has(_) => capability_name,
        Req::DataByte2InSet(b) => "DBt2InSet("@ + decimal(b as nat) + ")"@,
        Req::DataByte2Is(b) => "DBt2="@ + decimal(b as nat),
        Req::DataByte2IsNot(b) => "DBt2!="@ + decimal(b as nat),
        Req::DataByte3InSet(b) => "DBt3InSet("@ + decimal(b as nat) + ")"@,
        Req::DataByte3Is(b) => "DBt3="@ + decimal(b as nat),
        Req::DataByte3IsNot(b) => "DBt3!="@ + decimal(b as nat),
        Req::DataBytes2And3InSet(b) => "DBt2&3InSet("@ + decimal(b as nat) + ")"@,
        Req::Nil => "None"@,
        Req::Marker => "Marker"@,
    }
}

/// `a`, then the digits of `b`, then `z`.
fn labelled(a: &str, b: u8, z: &str) -> (s: String)
    ensures
        s@ == a@ + decimal(b as nat) + z@,
{
    let mut v = crate::chars::chars_of(a);
    let d = decimal_u8(b);
    let zs = crate::chars::chars_of(z);
    let mut i: usize = 0;
    let ghost a0 = v@;
    while i < d.len()
        invariant
            i <= d.len(),
            v@ == a0 + d@.subrange(0, i as int),
        decreases d.len() - i,
    {
        v.push(d[i]);
        i = i + 1;
        proof {
            assert(v@ =~= a0 + d@.subrange(0, i as int));
        }
    }
    let ghost a1 = v@;
    let mut j: usize = 0;
    while j < zs.len()
        invariant
            j <= zs.len(),
            v@ == a1 + zs@.subrange(0, j as int),
        decreases zs.len() - j,
    {
        v.push(zs[j]);
        j = j + 1;
        proof {
            assert(v@ =~= a1 + zs@.subrange(0, j as int));
        }
    }
    proof {
        assert(d@.subrange(0, d.len() as int) =~= d@);
        assert(zs@.subrange(0, zs.len() as int) =~= zs@);
        assert(v@ =~= a@ + decimal(b as nat) + z@);
    }
    crate::chars::string_of(&v)
}

impl Req {
    /// The label shown on the block.
    pub fn text(&self, capability_name: &str) -> (s: String)
        ensures
            s@ == req_text(*self, capability_name@),
    {
        match self {
            Req::And => String::from_str("And"),
            Req::Or => String::from_str("Or"),
            Req::Has(_) => String::from_str(capability_name),
            Req::DataByte2InSet(b) => labelled("DBt2InSet(", *b, ")"),
            Req::DataByte2Is(b) => {
                let s = labelled("DBt2=", *b, "");
                proof {
                    reveal_strlit("");
                    assert("DBt2="@ + decimal(*b as nat) + ""@ =~= "DBt2="@ + decimal(*b as nat));
                }
                s
            },
            Req::DataByte2IsNot(b) => {
                let s = labelled("DBt2!=", *b, "");
                proof {
                    reveal_strlit("");
                    assert("DBt2!="@ + decimal(*b as nat) + ""@ =~= "DBt2!="@ + decimal(*b as nat));
                }
                s
            },
            Req::DataByte3InSet(b) => labelled("DBt3InSet(", *b, ")"),
            Req::DataByte3Is(b) => {
                let s = labelled("DBt3=", *b, "");
                proof {
                    reveal_strlit("");
                    assert("DBt3="@ + decimal(*b as nat) + ""@ =~= "DBt3="@ + decimal(*b as nat));
                }
                s
            },
            Req::DataByte3IsNot(b) => {
                let s = labelled("DBt3!=", *b, "");
                proof {
                    reveal_strlit("");
                    assert("DBt3!="@ + decimal(*b as nat) + ""@ =~= "DBt3!="@ + decimal(*b as nat));
                }
                s
            },
            Req::DataBytes2And3InSet(b) => labelled("DBt2&3InSet(", *b, ")"),
            Req::Nil => String::from_str("None"),
            Req::Marker => String::from_str("Marker"),
        }
    }
}

/// The blocks of the pyramid that the editor can select: the row of
/// buttons (back, view, run, store), the top block, and the blocks of the
/// second, third and fourth rows counted from the left; `Nothing` draws no frame.
#[derive(Clone, Copy, Debug, PartialEq, Eq, Structural)]
pub enum BlockId {
    Back,
    Eye,
    SetRunning,
    Store,
    Top,
    Second(usize),
    Third(usize),
    Fourth(usize),
    Nothing,
}

/// The keys the policy editor reacts to.
#[derive(Clone, Copy, Debug, PartialEq, Eq, Structural)]
pub enum PolKey {
    Up,
    Down,
    Left,
    Right,
    Enter,
    Other,
}

/// What the policy editor asks for when it closes.
#[derive(Debug)]
pub enum PolAction<P> {
    SelectPolicy,
    SelectRequirement(ReqTree),
    Store(P, ReqTree),
    Run(P, ReqTree),
}

/// What one key does in the policy editor.
#[derive(Debug)]
pub enum PolStep<P> {
    /// The selection moved; the frame to draw around the new block, if any.
    Moved(Option<BlockId>),
    /// The editor closes with this action, if any.
    Close(Option<PolAction<P>>),
}

pub open spec fn lf(t: ReqTree) -> bool {
    is_logic(t.r)
}

/// A selection on the pyramid: row 0 has four buttons, row 1 the top
/// block, rows 2 to 4 have 2, 4 and 8 blocks.
pub open spec fn valid_selection(sel: (usize, usize)) -> bool {
    ||| sel.0 == 0 && sel.1 <= 3
    ||| sel.0 == 1 && sel.1 == 0
    ||| sel.0 == 2 && sel.1 <= 1
    ||| sel.0 == 3 && sel.1 <= 3
    ||| sel.0 == 4 && sel.1 <= 7
}

/// Moving the selection up: to the block above, towards the buttons.
pub open spec fn spec_up(sel: (usize, usize)) -> Option<((usize, usize), BlockId)> {
    if sel.0 == 0 {
        None
    } else if sel.0 == 1 {
        Some(((0, 1), BlockId::Eye))
    } else if sel.0 == 2 {
        Some(((1, 0), BlockId::Top))
    } else if sel.0 == 3 {
        if sel.1 <= 1 {
            Some(((2, 0), BlockId::Second(0)))
        } else {
            Some(((2, 1), BlockId::Second(1)))
        }
    } else if sel.0 == 4 {
        let k = if sel.1 <= 1 {
            0usize
        } else if sel.1 <= 3 {
            1usize
        } else if sel.1 <= 5 {
            2usize
        } else {
            3usize
        };
        Some(((3, k), BlockId::Third(k)))
    } else {
        Some((sel, BlockId::Nothing))
    }
}

/// Moving the selection down: only onto the operands of a logical block.
pub open spec fn spec_down(sel: (usize, usize), t: ReqTree) -> Option<((usize, usize), BlockId)> {
    if sel.0 == 0 {
        Some(((1, 0), BlockId::Top))
    } else if sel.0 == 1 {
        if lf(t) {
            Some(((2, 0), BlockId::Second(0)))
        } else {
            None
        }
    } else if sel.0 == 2 {
        if sel.1 == 0 {
            if lf(tl(t)) {
                Some(((3, 0), BlockId::Third(0)))
            } else {
                None
            }
        } else {
            if lf(tr(t)) {
                Some(((3, 2), BlockId::Third(2)))
            } else {
                None
            }
        }
    } else if sel.0 == 3 {
        if sel.1 == 0 {
            if lf(tl(tl(t))) {
                Some(((4, 0), BlockId::Fourth(0)))
            } else {
                None
            }
        } else if sel.1 == 1 {
            if lf(tr(tl(t))) {
                Some(((4, 2), BlockId::Fourth(2)))
            } else {
                None
            }
        } else if sel.1 == 2 {
            if lf(tl(tr(t))) {
                Some(((4, 4), BlockId::Fourth(4)))
            } else {
                None
            }
        } else {
            if lf(tr(tr(t))) {
                Some(((4, 6), BlockId::Fourth(6)))
            } else {
                None
            }
        }
    } else {
        None
    }
}

/// Moving the selection left, skipping blocks whose parent is no logical block.
pub open spec fn spec_left(sel: (usize, usize), t: ReqTree) -> Option<((usize, usize), BlockId)> {
    if sel.1 == 0 {
        None
    } else if sel.0 == 0 {
        if sel.1 == 1 {
            Some(((0, 0), BlockId::Back))
        } else if sel.1 == 2 {
            Some(((0, 1), BlockId::Eye))
        } else if sel.1 == 3 {
            Some(((0, 2), BlockId::SetRunning))
        } else {
            None
        }
    } else if sel.0 == 1 {
        None
    } else if sel.0 == 2 {
        Some(((2, 0), BlockId::Second(0)))
    } else if sel.0 == 3 {
        if sel.1 == 2 && !lf(tl(t)) {
            None
        } else {
            Some(((3, (sel.1 - 1) as usize), BlockId::Third((sel.1 - 1) as usize)))
        }
    } else if sel.0 == 4 {
        if sel.1 == 2 {
            if lf(tl(tl(t))) {
                Some(((4, 1), BlockId::Fourth(1)))
            } else {
                None
            }
        } else if sel.1 == 4 {
            if lf(tr(tl(t))) {
                Some(((4, 3), BlockId::Fourth(3)))
            } else if lf(tl(tl(t))) {
                Some(((4, 1), BlockId::Fourth(1)))
            } else {
                None
            }
        } else if sel.1 == 6 {
            if lf(tl(tr(t))) {
                Some(((4, 5), BlockId::Fourth(5)))
            } else if lf(tr(tl(t))) {
                Some(((4, 3), BlockId::Fourth(3)))
            } else if lf(tl(tl(t))) {
                Some(((4, 1), BlockId::Fourth(1)))
            } else {
                None
            }
        } else {
            Some(((4, (sel.1 - 1) as usize), BlockId::Fourth((sel.1 - 1) as usize)))
        }
    } else {
        None
    }
}

/// Moving the selection right, skipping blocks whose parent is no logical block.
pub open spec fn spec_right(sel: (usize, usize), t: ReqTree) -> Option<((usize, usize), BlockId)> {
    if sel == (0usize, 3usize) || sel == (1usize, 0usize) || sel == (2usize, 1usize) || sel == (
    3usize, 3usize) || sel == (4usize, 7usize) {
        None
    } else if sel.0 == 0 {
        if sel.1 == 0 {
            Some(((0, 1), BlockId::Eye))
        } else if sel.1 == 1 {
            Some(((0, 2), BlockId::SetRunning))
        } else if sel.1 == 2 {
            Some(((0, 3), BlockId::Store))
        } else {
            None
        }
    } else if sel.0 == 1 {
        None
    } else if sel.0 == 2 {
        Some(((2, 1), BlockId::Second(1)))
    } else if sel.0 == 3 {
        if sel.1 == 1 && !lf(tr(t)) {
            None
        } else {
            Some(((3, (sel.1 + 1) as usize), BlockId::Third((sel.1 + 1) as usize)))
        }
    } else if sel.0 == 4 {
        if sel.1 == 5 {
            if lf(tr(tr(t))) {
                Some(((4, 6), BlockId::Fourth(6)))
            } else {
                None
            }
        } else if sel.1 == 3 {
            if lf(tl(tr(t))) {
                Some(((4, 4), BlockId::Fourth(4)))
            } else if lf(tr(tr(t))) {
                Some(((4, 6), BlockId::Fourth(6)))
            } else {
                None
            }
        } else if sel.1 == 1 {
            if lf(tr(tl(t))) {
                Some(((4, 2), BlockId::Fourth(2)))
            } else if lf(tl(tr(t))) {
                Some(((4, 4), BlockId::Fourth(4)))
            } else if lf(tr(tr(t))) {
                Some(((4, 6), BlockId::Fourth(6)))
            } else {
                None
            }
        } else {
            Some(((4, (sel.1 + 1) as usize), BlockId::Fourth((sel.1 + 1) as usize)))
        }
    } else {
        Some((sel, BlockId::Nothing))
    }
}

/// The selection after a move, and the frame drawn.
pub open spec fn after_move(sel: (usize, usize), m: Option<((usize, usize), BlockId)>) -> (
    (usize, usize),
    Option<BlockId>,
) {
    match m {
        Some((s, b)) => (s, Some(b)),
        None => (sel, None),
    }
}

/// Every move keeps the selection on the pyramid.
pub proof fn lemma_moves_stay_valid(sel: (usize, usize), t: ReqTree)
    requires
        valid_selection(sel),
    ensures
        valid_selection(after_move(sel, spec_up(sel)).0),
        valid_selection(after_move(sel, spec_down(sel, t)).0),
        valid_selection(after_move(sel, spec_left(sel, t)).0),
        valid_selection(after_move(sel, spec_right(sel, t)).0),
{
}

/// Moving down from the top block and back up returns to the top block.
pub proof fn lemma_down_then_up(t: ReqTree)
    requires
        lf(t),
    ensures
        after_move(after_move((1, 0), spec_down((1, 0), t)).0, spec_up(after_move((1, 0), spec_down((1, 0), t)).0)).0
            == (1usize, 0usize),
{
}

/// The editor's selection on the pyramid of a requirement tree.
pub struct PolicyEditor {
    pub display_id: usize,
    pub blinker_id: usize,
    pub selection: (usize, usize),
    pub size: (usize, usize),
}

impl PolicyEditor {
    /// An editor for a screen of `size`, with the back button selected.
    pub fn new(display_id: usize, blinker_id: usize, size: (usize, usize)) -> (e: PolicyEditor)
        ensures
            e.display_id == display_id,
            e.blinker_id == blinker_id,
            e.size == size,
            e.selection == (0usize, 0usize),
    {
        PolicyEditor { display_id, blinker_id, selection: (0, 0), size }
    }

    pub fn blinker_up(&mut self) -> (b: Option<BlockId>)
        requires
            valid_selection(old(self).selection),
        ensures
            (final(self).selection, b) == after_move(old(self).selection, spec_up(old(self).selection)),
            final(self).size == old(self).size,
            final(self).display_id == old(self).display_id,
            final(self).blinker_id == old(self).blinker_id,
    {
        let (r, c) = self.selection;
        if r == 0 {
            return None;
        }
        let (sel, block) = if r == 1 {
            ((0, 1), BlockId::Eye)
        } else if r == 2 {
            ((1, 0), BlockId::Top)
        } else if r == 3 {
            if c <= 1 {
                ((2, 0), BlockId::Second(0))
            } else {
                ((2, 1), BlockId::Second(1))
            }
        } else {
            let k: usize = if c <= 1 {
                0
            } else if c <= 3 {
                1
            } else if c <= 5 {
                2
            } else {
                3
            };
            ((3, k), BlockId::Third(k))
        };
        self.selection = sel;
        Some(block)
    }

    pub fn blinker_down(&mut self, req: &ReqTree) -> (b: Option<BlockId>)
        requires
            valid_selection(old(self).selection),
        ensures
            (final(self).selection, b) == after_move(
                old(self).selection,
                spec_down(old(self).selection, *req),
            ),
            final(self).size == old(self).size,
            final(self).display_id == old(self).display_id,
            final(self).blinker_id == old(self).blinker_id,
    {
        let (r, c) = self.selection;
        let (sel, block) = if r == 0 {
            ((1, 0), BlockId::Top)
        } else if r == 1 {
            if req.req().is_logic_fn() {
                ((2, 0), BlockId::Second(0))
            } else {
                return None;
            }
        } else if r == 2 {
            if c == 0 {
                if req.left().req().is_logic_fn() {
                    ((3, 0), BlockId::Third(0))
                } else {
                    return None;
                }
            } else {
                if req.right().req().is_logic_fn() {
                    ((3, 2), BlockId::Third(2))
                } else {
                    return None;
                }
            }
        } else if r == 3 {
            if c == 0 {
                if req.left().left().req().is_logic_fn() {
                    ((4, 0), BlockId::Fourth(0))
                } else {
                    return None;
                }
            } else if c == 1 {
                if req.left().right().req().is_logic_fn() {
                    ((4, 2), BlockId::Fourth(2))
                } else {
                    return None;
                }
            } else if c == 2 {
                if req.right().left().req().is_logic_fn() {
                    ((4, 4), BlockId::Fourth(4))
                } else {
                    return None;
                }
            } else {
                if req.right().right().req().is_logic_fn() {
                    ((4, 6), BlockId::Fourth(6))
                } else {
                    return None;
                }
            }
        } else {
            return None;
        };
        self.selection = sel;
        Some(block)
    }

    pub fn blinker_left(&mut self, req: &ReqTree) -> (b: Option<BlockId>)
        requires
            valid_selection(old(self).selection),
        ensures
            (final(self).selection, b) == after_move(
                old(self).selection,
                spec_left(old(self).selection, *req),
            ),
            final(self).size == old(self).size,
            final(self).display_id == old(self).display_id,
            final(self).blinker_id == old(self).blinker_id,
    {
        let (r, c) = self.selection;
        if c == 0 {
            return None;
        }
        let (sel, block) = if r == 0 {
            if c == 1 {
                ((0, 0), BlockId::Back)
            } else if c == 2 {
                ((0, 1), BlockId::Eye)
            } else {
                ((0, 2), BlockId::SetRunning)
            }
        } else if r == 1 {
            return None;
        } else if r == 2 {
            ((2, 0), BlockId::Second(0))
        } else if r == 3 {
            if c == 2 && !req.left().req().is_logic_fn() {
                return None;
            }
            ((3, c - 1), BlockId::Third(c - 1))
        } else {
            if c == 2 {
                if req.left().left().req().is_logic_fn() {
                    ((4, 1), BlockId::Fourth(1))
                } else {
                    return None;
                }
            } else if c == 4 {
                if req.left().right().req().is_logic_fn() {
                    ((4, 3), BlockId::Fourth(3))
                } else if req.left().left().req().is_logic_fn() {
                    ((4, 1), BlockId::Fourth(1))
                } else {
                    return None;
                }
            } else if c == 6 {
                if req.right().left().req().is_logic_fn() {
                    ((4, 5), BlockId::Fourth(5))
                } else if req.left().right().req().is_logic_fn() {
                    ((4, 3), BlockId::Fourth(3))
                } else if req.left().left().req().is_logic_fn() {
                    ((4, 1), BlockId::Fourth(1))
                } else {
                    return None;
                }
            } else {
                ((4, c - 1), BlockId::Fourth(c - 1))
            }
        };
        self.selection = sel;
        Some(block)
    }

    pub fn blinker_right(&mut self, req: &ReqTree) -> (b: Option<BlockId>)
        requires
            valid_selection(old(self).selection),
        ensures
            (final(self).selection, b) == after_move(
                old(self).selection,
                spec_right(old(self).selection, *req),
            ),
            final(self).size == old(self).size,
            final(self).display_id == old(self).display_id,
            final(self).blinker_id == old(self).blinker_id,
    {
        let (r, c) = self.selection;
        if (r == 0 && c == 3) || (r == 1 && c == 0) || (r == 2 && c == 1) || (r == 3 && c == 3) || (
        r == 4 && c == 7) {
            return None;
        }
        let (sel, block) = if r == 0 {
            if c == 0 {
                ((0, 1), BlockId::Eye)
            } else if c == 1 {
                ((0, 2), BlockId::SetRunning)
            } else {
                ((0, 3), BlockId::Store)
            }
        } else if r == 2 {
            ((2, 1), BlockId::Second(1))
        } else if r == 3 {
            if c == 1 && !req.right().req().is_logic_fn() {
                return None;
            }
            ((3, c + 1), BlockId::Third(c + 1))
        } else {
            if c == 5 {
                if req.right().right().req().is_logic_fn() {
                    ((4, 6), BlockId::Fourth(6))
                } else {
                    return None;
                }
            } else if c == 3 {
                if req.right().left().req().is_logic_fn() {
                    ((4, 4), BlockId::Fourth(4))
                } else if req.right().right().req().is_logic_fn() {
                    ((4, 6), BlockId::Fourth(6))
                } else {
                    return None;
                }
            } else if c == 1 {
                if req.left().right().req().is_logic_fn() {
                    ((4, 2), BlockId::Fourth(2))
                } else if req.right().left().req().is_logic_fn() {
                    ((4, 4), BlockId::Fourth(4))
                } else if req.right().right().req().is_logic_fn() {
                    ((4, 6), BlockId::Fourth(6))
                } else {
                    return None;
                }
            } else {
                ((4, c + 1), BlockId::Fourth(c + 1))
            }
        };
        self.selection = sel;
        Some(block)
    }

    /// What Enter does: a button closes the editor with its action (back
    /// closes with none); a block of the pyramid is marked for replacement.
    pub fn enter<P>(&self, policy: P, req: ReqTree) -> (a: Option<PolAction<P>>)
        ensures
            self.selection.0 == 0 ==> match a {
                Some(PolAction::SelectPolicy) => self.selection.1 == 1,
                Some(PolAction::Run(p, t)) => self.selection.1 == 2 && p == policy && t == req,
                Some(PolAction::Store(p, t)) => self.selection.1 == 3 && p == policy && t == req,
                Some(PolAction::SelectRequirement(_)) => false,
                None => self.selection.1 == 0 || self.selection.1 > 3,
            },
            self.selection.0 != 0 ==> (a matches Some(PolAction::SelectRequirement(t)) && t
                == spec_mark(req, self.selection)),
    {
        if self.selection.0 == 0 {
            if self.selection.1 == 1 {
                Some(PolAction::SelectPolicy)
            } else if self.selection.1 == 2 {
                Some(PolAction::Run(policy, req))
            } else if self.selection.1 == 3 {
                Some(PolAction::Store(policy, req))
            } else {
                None
            }
        } else {
            let mut r = req;
            r.mark(self.selection);
            Some(PolAction::SelectRequirement(r))
        }
    }

    /// One key press in the editor: arrows move the selection, Enter
    /// closes with the selected action, any other key closes with none.
    pub fn handle_key<P>(&mut self, key: PolKey, policy: P, req: ReqTree) -> (step: PolStep<P>)
        requires
            valid_selection(old(self).selection),
        ensures
            valid_selection(final(self).selection),
            final(self).size == old(self).size,
            match key {
                PolKey::Up => step == PolStep::<P>::Moved(after_move(old(self).selection, spec_up(old(self).selection)).1)
                    && final(self).selection == after_move(old(self).selection, spec_up(old(self).selection)).0,
                PolKey::Down => step == PolStep::<P>::Moved(after_move(old(self).selection, spec_down(old(self).selection, req)).1)
                    && final(self).selection == after_move(old(self).selection, spec_down(old(self).selection, req)).0,
                PolKey::Left => step == PolStep::<P>::Moved(after_move(old(self).selection, spec_left(old(self).selection, req)).1)
                    && final(self).selection == after_move(old(self).selection, spec_left(old(self).selection, req)).0,
                PolKey::Right => step == PolStep::<P>::Moved(after_move(old(self).selection, spec_right(old(self).selection, req)).1)
                    && final(self).selection == after_move(old(self).selection, spec_right(old(self).selection, req)).0,
                PolKey::Enter => {
                    &&& final(self).selection == old(self).selection
                    &&& step matches PolStep::Close(a)
                    &&& (old(self).selection.0 != 0 ==> (a matches Some(
                        PolAction::SelectRequirement(t),
                    ) && t == spec_mark(req, old(self).selection)))
                    &&& (old(self).selection == (0usize, 1usize) ==> (a matches Some(
                        PolAction::SelectPolicy,
                    )))
                    &&& (old(self).selection == (0usize, 2usize) ==> (a matches Some(
                        PolAction::Run(p, t),
                    ) && p == policy && t == req))
                    &&& (old(self).selection == (0usize, 3usize) ==> (a matches Some(
                        PolAction::Store(p, t),
                    ) && p == policy && t == req))
                    &&& (old(self).selection == (0usize, 0usize) ==> a is None)
                },
                PolKey::Other => {
                    &&& final(self).selection == old(self).selection
                    &&& step matches PolStep::Close(a)
                    &&& a is None
                },
            },
    {
        proof {
            lemma_moves_stay_valid(self.selection, req);
        }
        match key {
            PolKey::Up => PolStep::Moved(self.blinker_up()),
            PolKey::Down => PolStep::Moved(self.blinker_down(&req)),
            PolKey::Left => PolStep::Moved(self.blinker_left(&req)),
            PolKey::Right => PolStep::Moved(self.blinker_right(&req)),
            PolKey::Enter => PolStep::Close(self.enter(policy, req)),
            PolKey::Other => PolStep::Close(None),
        }
    }
}

} // verus!
