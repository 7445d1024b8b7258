//! Text rendering of a QR code's module matrix, with its quiet zone.
use vstd::prelude::*;
use vstd::string::StringExecFns;
use crate::error::ErrorKind;

verus! {

/// A QR code as the encoder built it.
#[verifier::external_type_specification]
#[verifier::external_body]
pub struct ExQrCode(qrcode::QrCode);

/// Whether the QR encoder accepts `data`.
pub uninterp spec fn qr_encodable(data: Seq<u8>) -> bool;

/// Modules on a side of the QR code the encoder builds for `data`.
pub uninterp spec fn qr_width_of(data: Seq<u8>) -> nat;

/// The modules of the QR code the encoder builds for `data`, row by row, dark as `true`.
pub uninterp spec fn qr_modules_of(data: Seq<u8>) -> Seq<bool>;

/// The error the QR encoder gives for `data` when it refuses it.
pub uninterp spec fn qr_error_of(data: Seq<u8>) -> qrcode::types::QrError;

/// Relies on `qrcode::QrCode::new` (medium error correction, normal versions only),
/// with `QrCode::width` and `QrCode::to_colors` to read the code it builds: the
/// width is `4 * version + 17` with a version of at most 40, and there is one
/// module per position of the square.
#[verifier::external_body]
fn encode_modules(data: &[u8]) -> (r: Result<(usize, Vec<bool>), qrcode::types::QrError>)
    ensures
        r is Ok == qr_encodable(data@),
        r matches Ok((w, m)) ==> w == qr_width_of(data@) && m@ == qr_modules_of(data@)
            && m@.len() == w * w && w <= 177,
        r matches Err(e) ==> e == qr_error_of(data@),
{
    match qrcode::QrCode::new(data) {
        Ok(code) => Ok((code.width(), code.to_colors().into_iter().map(|c| c == qrcode::Color::Dark).collect())),
        Err(e) => Err(e),
    }
}

/// Light border width, in modules, around a (non-micro) QR code.
pub const QUIET_ZONE: u32 = 4;

/// One step of a walk over the rendered grid.
#[derive(PartialEq, Eq, Structural, Clone, Copy, Debug)]
pub enum Cell {
    /// A dark module.
    On,
    /// A light module or a quiet-zone cell.
    Off,
    /// The end of a row.
    Ln,
}

/// Renders a square module matrix, row by row, inside an optional quiet zone.
pub struct RendererLocal {
    content: Vec<bool>,
    modules_count: u32,
    quiet_zone: u32,
    has_quiet_zone: bool,
}

/// The text of one cell.
pub open spec fn cell_text(c: Cell, on: Seq<char>, off: Seq<char>) -> Seq<char> {
    match c {
        Cell::On => on,
        Cell::Off => off,
        Cell::Ln => seq!['\n'],
    }
}

/// The text of a walk: each cell's text, in order.
pub open spec fn text_of(cells: Seq<Cell>, on: Seq<char>, off: Seq<char>) -> Seq<char>
    decreases cells.len(),
{
    if cells.len() == 0 {
        Seq::empty()
    } else {
        text_of(cells.drop_last(), on, off) + cell_text(cells.last(), on, off)
    }
}

proof fn lemma_index_bound(a: int, b: int, w: int)
    requires
        0 <= a < w,
        0 <= b < w,
    ensures
        0 <= a * w + b < w * w,
{
    assert(a * w + b < w * w) by (nonlinear_arith)
        requires
            0 <= a < w,
            0 <= b < w,
    ;
    assert(0 <= a * w) by (nonlinear_arith)
        requires
            0 <= a,
            0 <= w,
    ;
}

impl RendererLocal {
    /// The matrix holds a module for each position, and the rendered width fits.
    pub closed spec fn wf(&self) -> bool {
        &&& self.content@.len() == self.modules_count * self.modules_count
        &&& self.modules_count + 2 * self.quiet_zone <= u32::MAX
    }

    /// Modules on a side.
    pub closed spec fn count(&self) -> int {
        self.modules_count as int
    }

    /// The quiet zone this renderer was made with, drawn or not.
    pub closed spec fn zone_setting(&self) -> int {
        self.quiet_zone as int
    }

    /// The quiet zone drawn on each side: none when it is switched off.
    pub closed spec fn zone(&self) -> int {
        if self.has_quiet_zone {
            self.quiet_zone as int
        } else {
            0
        }
    }

    /// Whether the module in row `r`, column `c` of the matrix is dark.
    pub closed spec fn module(&self, r: int, c: int) -> bool {
        self.content@[r * self.modules_count + c]
    }

    /// Cells on a side of the rendered grid.
    pub open spec fn width(&self) -> int {
        self.count() + 2 * self.zone()
    }

    /// The cell at column `x`, row `y` of the rendered grid.
    pub open spec fn cell_at(&self, x: int, y: int) -> Cell {
        let z = self.zone();
        if z <= x < self.count() + z && z <= y < self.count() + z && self.module(y - z, x - z) {
            Cell::On
        } else {
            Cell::Off
        }
    }

    /// The first `n` cells of row `y`.
    pub open spec fn row_cells(&self, y: int, n: int) -> Seq<Cell>
        decreases n,
    {
        if n <= 0 {
            Seq::empty()
        } else {
            self.row_cells(y, n - 1).push(self.cell_at(n - 1, y))
        }
    }

    /// The first `m` rows, each closed by `Cell::Ln`.
    pub open spec fn rows(&self, m: int) -> Seq<Cell>
        decreases m,
    {
        if m <= 0 {
            Seq::empty()
        } else {
            self.rows(m - 1) + self.row_cells(m - 1, self.width()).push(Cell::Ln)
        }
    }

    /// The whole walk over the rendered grid.
    pub open spec fn walk_spec(&self) -> Seq<Cell> {
        self.rows(self.width())
    }

    /// A renderer of the `modules_count` by `modules_count` matrix `content`
    /// (row by row, `true` for dark), with a quiet zone of `quiet_zone` modules.
    /// `None` when `content` does not hold exactly that many modules or the
    /// rendered width does not fit.
    pub fn new(content: Vec<bool>, modules_count: u32, quiet_zone: u32) -> (r: Option<RendererLocal>)
        ensures
            (content@.len() == modules_count * modules_count && modules_count + 2 * quiet_zone
                <= u32::MAX) == r is Some,
            r matches Some(rd) ==> rd.wf() && rd.count() == modules_count && rd.zone()
                == quiet_zone && rd.zone_setting() == quiet_zone && forall|i: int, j: int|
                0 <= i < modules_count && 0 <= j < modules_count ==> rd.module(i, j)
                    == content@[i * modules_count + j],
    {
        let w = modules_count as u64;
        assert(w * w <= u32::MAX * u32::MAX) by (nonlinear_arith)
            requires
                w <= u32::MAX,
        ;
        if (content.len() as u64) != w * w || w + 2 * (quiet_zone as u64) > u32::MAX as u64 {
            return None;
        }
        Some(RendererLocal { content, modules_count, quiet_zone, has_quiet_zone: true })
    }

    /// Switches the quiet zone on or off.
    pub fn quiet_zone(&mut self, has_quiet_zone: bool)
        requires
            old(self).wf(),
        ensures
            final(self).wf(),
            final(self).count() == old(self).count(),
            final(self).zone() == if has_quiet_zone { old(self).zone_setting() } else { 0 },
            final(self).zone_setting() == old(self).zone_setting(),
            forall|i: int, j: int| #[trigger] final(self).module(i, j) == old(self).module(i, j),
    {
        self.has_quiet_zone = has_quiet_zone;
    }

    /// Walks the rendered grid row by row: a dark module is `On`, a light module
    /// or a quiet-zone cell is `Off`, and each row ends with `Ln`.
    pub fn walk(&self) -> (r: Vec<Cell>)
        requires
            self.wf(),
        ensures
            r@ == self.walk_spec(),
    {
        let w = self.modules_count;
        let qz = if self.has_quiet_zone {
            self.quiet_zone
        } else {
            0
        };
        let width = w + 2 * qz;
        let mut r: Vec<Cell> = Vec::new();
        let mut y: u32 = 0;
        while y < width
            invariant
                self.wf(),
                w == self.count(),
                qz == self.zone(),
                width == self.width(),
                y <= width,
                r@ == self.rows(y as int),
            decreases width - y,
        {
            let mut x: u32 = 0;
            while x < width
                invariant
                    self.wf(),
                    w == self.count(),
                    qz == self.zone(),
                    width == self.width(),
                    y < width,
                    x <= width,
                    r@ == self.rows(y as int) + self.row_cells(y as int, x as int),
                decreases width - x,
            {
                let c = if qz <= x && x < w + qz && qz <= y && y < w + qz {
                    proof {
                        lemma_index_bound((y - qz) as int, (x - qz) as int, w as int);
                    }
                    let n = self.content.len();
                    assert(((y - qz) as int) * (w as int) + ((x - qz) as int) < n);
                    let i = ((y - qz) as usize) * (w as usize) + ((x - qz) as usize);
                    if self.content[i] {
                        Cell::On
                    } else {
                        Cell::Off
                    }
                } else {
                    Cell::Off
                };
                r.push(c);
                x = x + 1;
                assert(r@ =~= self.rows(y as int) + self.row_cells(y as int, x as int));
            }
            r.push(Cell::Ln);
            y = y + 1;
            assert(r@ =~= self.rows(y as int));
        }
        r
    }

    /// Renders the grid as text: `on_str` for a dark module, `off_str` for a
    /// light one or a quiet-zone cell, and a line break after each row.
    pub fn to_string(&self, on_str: &str, off_str: &str) -> (r: String)
        requires
            self.wf(),
        ensures
            r@ == text_of(self.walk_spec(), on_str@, off_str@),
    {
        let cells = self.walk();
        let mut s = String::new();
        let mut k: usize = 0;
        while k < cells.len()
            invariant
                k <= cells@.len(),
                s@ == text_of(cells@.subrange(0, k as int), on_str@, off_str@),
            decreases cells@.len() - k,
        {
            match cells[k] {
                Cell::On => s.append(on_str),
                Cell::Off => s.append(off_str),
                Cell::Ln => {
                    proof {
                        reveal_strlit("\n");
                    }
                    s.append("\n");
                },
            }
            assert(cells@.subrange(0, k + 1).drop_last() =~= cells@.subrange(0, k as int));
            k = k + 1;
        }
        assert(cells@.subrange(0, k as int) =~= cells@);
        s
    }
}

/// Encodes `data` as a QR code and makes a renderer of it with the standard quiet
/// zone; fails with the encoder's error when the encoder refuses `data`.
pub fn qr_renderer(data: &[u8]) -> (r: Result<RendererLocal, ErrorKind>)
    ensures
        qr_encodable(data@) ==> (r matches Ok(rd) && rd.wf() && rd.zone() == QUIET_ZONE
            && rd.count() == qr_width_of(data@) && forall|i: int, j: int|
            0 <= i < rd.count() && 0 <= j < rd.count() ==> rd.module(i, j) == qr_modules_of(
                data@,
            )[i * rd.count() + j]),
        !qr_encodable(data@) ==> r == Err::<RendererLocal, ErrorKind>(ErrorKind::Qr(qr_error_of(data@))),
{
    match encode_modules(data) {
        Ok((w, content)) => {
            match RendererLocal::new(content, w as u32, QUIET_ZONE) {
                Some(rd) => Ok(rd),
                None => Err(ErrorKind::MalformedMatrix),
            }
        },
        Err(e) => Err(ErrorKind::Qr(e)),
    }
}

} // verus!
