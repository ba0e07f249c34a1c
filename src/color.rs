use vstd::prelude::*;
use crate::ihdr::ColorType;

verus! {

/// `n` zero bytes: the channels of a pixel outside the image.
pub open spec fn zeros(n: nat) -> Seq<u8> {
    Seq::new(n, |i: int| 0u8)
}

/// `(x + p) mod 256`.
pub open spec fn wrap_add(x: u8, p: u8) -> u8 {
    ((x as int + p as int) % 256) as u8
}

/// `(x - p) mod 256`.
pub open spec fn wrap_sub(x: u8, p: u8) -> u8 {
    ((x as int - p as int) % 256) as u8
}

pub open spec fn abs_diff(x: int, y: int) -> int {
    if x >= y { x - y } else { y - x }
}

/// The Paeth predictor over a left, an upper and an upper-left byte.
pub open spec fn paeth(a: u8, b: u8, c: u8) -> u8 {
    let p = a as int + b as int - c as int;
    let pa = abs_diff(p, a as int);
    let pb = abs_diff(p, b as int);
    let pc = abs_diff(p, c as int);
    if pa <= pb && pa <= pc { a } else if pb <= pc { b } else { c }
}

/// What filter type `t` predicts from the left (`a`), upper (`b`) and
/// upper-left (`c`) bytes of the same channel.
pub open spec fn predictor(t: u8, a: u8, b: u8, c: u8) -> u8 {
    if t == 1 {
        a
    } else if t == 2 {
        b
    } else if t == 3 {
        ((a as int + b as int) / 2) as u8
    } else if t == 4 {
        paeth(a, b, c)
    } else {
        0
    }
}

/// A pixel `x` reconstructed under filter type `t` from its neighbours.
pub open spec fn recon_pixel(t: u8, x: Seq<u8>, a: Seq<u8>, b: Seq<u8>, c: Seq<u8>) -> Seq<u8> {
    Seq::new(x.len(), |i: int| wrap_add(x[i], predictor(t, a[i], b[i], c[i])))
}

/// A raw pixel `x` encoded under filter type `t` from its raw neighbours.
pub open spec fn filter_pixel(t: u8, x: Seq<u8>, a: Seq<u8>, b: Seq<u8>, c: Seq<u8>) -> Seq<u8> {
    Seq::new(x.len(), |i: int| wrap_sub(x[i], predictor(t, a[i], b[i], c[i])))
}

/// One byte per channel.
pub struct Color {
    data: Vec<u8>,
}

impl View for Color {
    type V = Seq<u8>;

    closed spec fn view(&self) -> Seq<u8> {
        self.data@
    }
}

/// The channels of a neighbour, or `n` zeros where there is none.
pub open spec fn neighbor(o: Option<&Color>, n: nat) -> Seq<u8> {
    match o {
        Some(c) => c@,
        None => zeros(n),
    }
}

pub open spec fn fits(o: Option<&Color>, n: nat) -> bool {
    match o {
        Some(c) => c@.len() >= n,
        None => true,
    }
}

fn pick<'a>(o: Option<&'a Color>, zeros: &'a Vec<u8>) -> (r: &'a Vec<u8>)
    ensures
        o is None ==> r@ == zeros@,
        o matches Some(c) ==> r@ == c@,
{
    match o {
        Some(c) => &c.data,
        None => zeros,
    }
}

impl Color {
    pub fn new(data: Vec<u8>) -> (r: Color)
        ensures
            r@ == data@,
    {
        Color { data }
    }

    pub fn r(&self, color_type: &ColorType) -> (r: u8)
        requires
            self@.len() >= 1,
        ensures
            r == self@[0],
    {
        match color_type {
            ColorType::RGB => self.data[0],
            ColorType::RGBA => self.data[0],
        }
    }

    pub fn g(&self, color_type: &ColorType) -> (r: u8)
        requires
            self@.len() >= 2,
        ensures
            r == self@[1],
    {
        match color_type {
            ColorType::RGB => self.data[1],
            ColorType::RGBA => self.data[1],
        }
    }

    pub fn b(&self, color_type: &ColorType) -> (r: u8)
        requires
            self@.len() >= 3,
        ensures
            r == self@[2],
    {
        match color_type {
            ColorType::RGB => self.data[2],
            ColorType::RGBA => self.data[2],
        }
    }

    /// Reverses the Sub filter: adds the left neighbour channel by channel.
    pub fn apply_sub(&self, left: Option<&Color>) -> (r: Color)
        requires
            fits(left, self@.len()),
        ensures
            r@ == recon_pixel(1, self@, neighbor(left, self@.len()), zeros(self@.len()), zeros(self@.len())),
    {
        let n = self.data.len();
        let blank = vec![0u8; n];
        let l = pick(left, &blank);
        let mut new_data: Vec<u8> = Vec::with_capacity(n);
        for i in 0..n
            invariant
                n == self@.len(),
                l@.len() >= n,
                new_data@.len() == i,
                forall|j: int| 0 <= j < i ==> new_data@[j] == wrap_add(self@[j], l@[j]),
        {
            new_data.push(self.data[i].wrapping_add(l[i]));
        }
        let r = Color::new(new_data);
        assert(r@ =~= recon_pixel(1, self@, neighbor(left, n as nat), zeros(n as nat), zeros(n as nat)));
        r
    }

    /// Reverses the Up filter: adds the upper neighbour channel by channel.
    pub fn apply_up(&self, up: Option<&Color>) -> (r: Color)
        requires
            fits(up, self@.len()),
        ensures
            r@ == recon_pixel(2, self@, zeros(self@.len()), neighbor(up, self@.len()), zeros(self@.len())),
    {
        let n = self.data.len();
        let blank = vec![0u8; n];
        let u = pick(up, &blank);
        let mut new_data: Vec<u8> = Vec::with_capacity(n);
        for i in 0..n
            invariant
                n == self@.len(),
                u@.len() >= n,
                new_data@.len() == i,
                forall|j: int| 0 <= j < i ==> new_data@[j] == wrap_add(self@[j], u@[j]),
        {
            new_data.push(self.data[i].wrapping_add(u[i]));
        }
        let r = Color::new(new_data);
        assert(r@ =~= recon_pixel(2, self@, zeros(n as nat), neighbor(up, n as nat), zeros(n as nat)));
        r
    }

    /// Reverses the Average filter: adds the floor of the mean of the left
    /// and upper neighbours.
    pub fn apply_avg(&self, left: Option<&Color>, up: Option<&Color>) -> (r: Color)
        requires
            fits(left, self@.len()),
            fits(up, self@.len()),
        ensures
            r@ == recon_pixel(3, self@, neighbor(left, self@.len()), neighbor(up, self@.len()), zeros(self@.len())),
    {
        let n = self.data.len();
        let blank = vec![0u8; n];
        let l = pick(left, &blank);
        let u = pick(up, &blank);
        let mut new_data: Vec<u8> = Vec::with_capacity(n);
        for i in 0..n
            invariant
                n == self@.len(),
                l@.len() >= n,
                u@.len() >= n,
                new_data@.len() == i,
                forall|j: int| 0 <= j < i ==> new_data@[j] == wrap_add(self@[j], predictor(3, l@[j], u@[j], 0)),
        {
            let avg = ((l[i] as u16 + u[i] as u16) / 2) as u8;
            new_data.push(self.data[i].wrapping_add(avg));
        }
        let r = Color::new(new_data);
        assert(r@ =~= recon_pixel(3, self@, neighbor(left, n as nat), neighbor(up, n as nat), zeros(n as nat)));
        r
    }

    /// Reverses the Paeth filter: adds the Paeth predictor of the left,
    /// upper and upper-left neighbours.
    pub fn apply_paeth(&self, left: Option<&Color>, up: Option<&Color>, left_up: Option<&Color>) -> (r: Color)
        requires
            fits(left, self@.len()),
            fits(up, self@.len()),
            fits(left_up, self@.len()),
        ensures
            r@ == recon_pixel(
                4,
                self@,
                neighbor(left, self@.len()),
                neighbor(up, self@.len()),
                neighbor(left_up, self@.len()),
            ),
    {
        let n = self.data.len();
        let blank = vec![0u8; n];
        let l = pick(left, &blank);
        let u = pick(up, &blank);
        let ul = pick(left_up, &blank);
        let mut new_data: Vec<u8> = Vec::with_capacity(n);
        for i in 0..n
            invariant
                n == self@.len(),
                l@.len() >= n,
                u@.len() >= n,
                ul@.len() >= n,
                new_data@.len() == i,
                forall|j: int| 0 <= j < i ==> new_data@[j] == wrap_add(self@[j], paeth(l@[j], u@[j], ul@[j])),
        {
            let a = l[i];
            let b = u[i];
            let c = ul[i];
            new_data.push(self.data[i].wrapping_add(peath_predictor(a, b, c)));
        }
        let r = Color::new(new_data);
        assert(r@ =~= recon_pixel(
            4,
            self@,
            neighbor(left, n as nat),
            neighbor(up, n as nat),
            neighbor(left_up, n as nat),
        ));
        r
    }
}

/// The Paeth predictor: the one of `a`, `b`, `c` closest to `a + b - c`,
/// ties going to `a`, then `b`.
pub fn peath_predictor(a: u8, b: u8, c: u8) -> (r: u8)
    ensures
        r == paeth(a, b, c),
{
    let a = a as isize;
    let b = b as isize;
    let c = c as isize;

    let p = a + b - c;
    let pa = if p >= a { p - a } else { a - p };
    let pb = if p >= b { p - b } else { b - p };
    let pc = if p >= c { p - c } else { c - p };

    if pa <= pb && pa <= pc {
        a as u8
    } else if pb <= pc {
        b as u8
    } else {
        c as u8
    }
}

/// Where the left, upper and upper-left bytes are one value, the Paeth
/// predictor is that value.
pub proof fn lemma_paeth_uniform(k: u8)
    ensures
        paeth(k, k, k) == k,
{
}

} // verus!
