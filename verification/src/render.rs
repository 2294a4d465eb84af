//! The overlay's toolbar model, the dimmed backdrop and the row copies that
//! compose a frame.

use crate::actions::{deliverable_label, Deliverable};
use crate::annotate::{tool_label, Tool};
use crate::draw::Icon;
use tiny_skia::{IntSize, Pixmap};
use vstd::prelude::*;

verus! {

#[derive(Clone, Copy, PartialEq, Eq, Debug, Structural)]
pub enum Command {
    Tool(Tool),
    NextColor,
    Undo,
    Close,
    Deliver(Deliverable),
}

/// The name shown for a command.
pub open spec fn command_label(c: Command) -> Seq<char> {
    match c {
        Command::Tool(tool) => tool_label(tool),
        Command::NextColor => "Next color"@,
        Command::Undo => "Undo"@,
        Command::Close => "Close"@,
        Command::Deliver(d) => deliverable_label(d),
    }
}

impl Command {
    pub fn label(self) -> (s: &'static str)
        ensures
            s@ == command_label(self),
    {
        match self {
            Command::Tool(tool) => tool.label(),
            Command::NextColor => "Next color",
            Command::Undo => "Undo",
            Command::Close => "Close",
            Command::Deliver(deliverable) => deliverable.label(),
        }
    }
}

/// A toolbar button under the pointer: its index in the tool or the action panel.
#[derive(Clone, Copy, PartialEq, Eq, Debug, Structural)]
pub enum Hotspot {
    Tool(usize),
    Action(usize),
}

/// What a toolbar button does and how it is shown; where it is drawn is
/// laid out separately.
#[derive(Clone, Copy, PartialEq, Eq, Debug, Structural)]
pub struct ButtonState {
    pub command: Command,
    pub icon: Icon,
    pub enabled: bool,
    pub active: bool,
}

/// The two toolbar panels: annotation tools beside the selection and the
/// delivery actions below it.
pub struct Panels {
    pub tools: Vec<ButtonState>,
    pub actions: Vec<ButtonState>,
}

fn button(command: Command, icon: Icon, enabled: bool, active: bool) -> (b: ButtonState)
    ensures
        b == (ButtonState { command, icon, enabled, active }),
{
    ButtonState { command, icon, enabled, active }
}

/// The tool panel as first laid out: six drawing tools, the colour button
/// and undo (disabled until there is something to undo).
pub open spec fn initial_tools() -> Seq<ButtonState> {
    seq![
        ButtonState { command: Command::Tool(Tool::Pen), icon: Icon::Pen, enabled: true, active: false },
        ButtonState { command: Command::Tool(Tool::Line), icon: Icon::Line, enabled: true, active: false },
        ButtonState { command: Command::Tool(Tool::Arrow), icon: Icon::Arrow, enabled: true, active: false },
        ButtonState { command: Command::Tool(Tool::Box), icon: Icon::Outline, enabled: true, active: false },
        ButtonState { command: Command::Tool(Tool::Marker), icon: Icon::Marker, enabled: true, active: false },
        ButtonState { command: Command::Tool(Tool::Label), icon: Icon::Letter, enabled: true, active: false },
        ButtonState { command: Command::NextColor, icon: Icon::Letter, enabled: true, active: false },
        ButtonState { command: Command::Undo, icon: Icon::Undo, enabled: false, active: false },
    ]
}

/// The action panel as first laid out: upload, copy and save (disabled
/// until the selection can be delivered) and close.
pub open spec fn initial_actions() -> Seq<ButtonState> {
    seq![
        ButtonState { command: Command::Deliver(Deliverable::Upload), icon: Icon::Upload, enabled: false, active: false },
        ButtonState { command: Command::Deliver(Deliverable::Copy), icon: Icon::CopyImage, enabled: false, active: false },
        ButtonState { command: Command::Deliver(Deliverable::Save), icon: Icon::Save, enabled: false, active: false },
        ButtonState { command: Command::Close, icon: Icon::Close, enabled: true, active: false },
    ]
}

/// A tool button after refreshing: among the first six, a tool button is
/// active exactly when its tool is the current one; the eighth (undo) is
/// enabled exactly when there is something to undo.
pub open spec fn refreshed_tool(b: ButtonState, i: int, tool: Tool, can_undo: bool) -> ButtonState {
    ButtonState {
        active: if i < 6 {
            match b.command {
                Command::Tool(t) => t == tool,
                _ => b.active,
            }
        } else {
            b.active
        },
        enabled: if i == 7 {
            can_undo
        } else {
            b.enabled
        },
        ..b
    }
}

/// An action button after refreshing: the three delivery buttons are
/// enabled exactly when the selection can be delivered.
pub open spec fn refreshed_action(b: ButtonState, i: int, ready: bool) -> ButtonState {
    ButtonState {
        enabled: if i < 3 {
            ready
        } else {
            b.enabled
        },
        ..b
    }
}

/// What refreshing sets, whatever the button held before: undo (the eighth
/// tool button) is enabled exactly when there is something to undo, each of
/// the first six tool buttons is active exactly when its tool is the
/// current one, the three delivery buttons are enabled exactly when the
/// selection can be delivered, and no button changes its command or icon.
pub proof fn law_refresh_sets_state(b: ButtonState, a: ButtonState, i: int, tool: Tool, can_undo: bool, ready: bool)
    ensures
        refreshed_tool(b, 7, tool, can_undo).enabled == can_undo,
        0 <= i < 6 && b.command is Tool ==> refreshed_tool(b, i, tool, can_undo).active == (b.command
            == Command::Tool(tool)),
        0 <= i < 3 ==> refreshed_action(a, i, ready).enabled == ready,
        refreshed_tool(b, i, tool, can_undo).command == b.command,
        refreshed_tool(b, i, tool, can_undo).icon == b.icon,
        refreshed_action(a, i, ready).command == a.command,
        refreshed_action(a, i, ready).icon == a.icon,
        i != 7 ==> refreshed_tool(b, i, tool, can_undo).enabled == b.enabled,
        i >= 3 ==> refreshed_action(a, i, ready).enabled == a.enabled,
        i >= 6 ==> refreshed_tool(b, i, tool, can_undo).active == b.active,
        refreshed_action(a, i, ready).active == a.active,
{
}

/// Refreshing again with the same tool, undo state and readiness changes nothing.
pub proof fn law_refresh_is_idempotent(b: ButtonState, a: ButtonState, i: int, tool: Tool, can_undo: bool, ready: bool)
    ensures
        refreshed_tool(refreshed_tool(b, i, tool, can_undo), i, tool, can_undo) == refreshed_tool(b, i, tool, can_undo),
        refreshed_action(refreshed_action(a, i, ready), i, ready) == refreshed_action(a, i, ready),
{
}

impl Panels {
    pub fn new() -> (p: Self)
        ensures
            p.tools@ == Seq::<ButtonState>::empty(),
            p.actions@ == Seq::<ButtonState>::empty(),
    {
        Panels { tools: Vec::new(), actions: Vec::new() }
    }

    /// Lays the panels out afresh when they do not have their eight and
    /// four buttons, then marks the current tool, whether undo is possible
    /// and whether the selection can be delivered.
    pub fn refresh(&mut self, tool: Tool, can_undo: bool, ready: bool)
        ensures
            final(self).tools@.len() == 8,
            final(self).actions@.len() == 4,
            forall|i: int|
                0 <= i < 8 ==> #[trigger] final(self).tools@[i] == refreshed_tool(
                    (if old(self).tools@.len() == 8 {
                        old(self).tools@
                    } else {
                        initial_tools()
                    })[i],
                    i,
                    tool,
                    can_undo,
                ),
            forall|i: int|
                0 <= i < 4 ==> #[trigger] final(self).actions@[i] == refreshed_action(
                    (if old(self).actions@.len() == 4 {
                        old(self).actions@
                    } else {
                        initial_actions()
                    })[i],
                    i,
                    ready,
                ),
            final(self).tools@[7].enabled == can_undo,
            forall|i: int| 0 <= i < 3 ==> #[trigger] final(self).actions@[i].enabled == ready,
            forall|i: int|
                0 <= i < 6 ==> (#[trigger] final(self).tools@[i]).command is Tool ==> final(self).tools@[i].active
                    == (final(self).tools@[i].command == Command::Tool(tool)),
            forall|i: int|
                0 <= i < 8 ==> #[trigger] final(self).tools@[i].command == (if old(self).tools@.len() == 8 {
                    old(self).tools@
                } else {
                    initial_tools()
                })[i].command,
            forall|i: int|
                0 <= i < 4 ==> #[trigger] final(self).actions@[i].command == (if old(self).actions@.len() == 4 {
                    old(self).actions@
                } else {
                    initial_actions()
                })[i].command,
    {
        if self.tools.len() != 8 {
            self.tools = vec![
                button(Command::Tool(Tool::Pen), Icon::Pen, true, false),
                button(Command::Tool(Tool::Line), Icon::Line, true, false),
                button(Command::Tool(Tool::Arrow), Icon::Arrow, true, false),
                button(Command::Tool(Tool::Box), Icon::Outline, true, false),
                button(Command::Tool(Tool::Marker), Icon::Marker, true, false),
                button(Command::Tool(Tool::Label), Icon::Letter, true, false),
                button(Command::NextColor, Icon::Letter, true, false),
                button(Command::Undo, Icon::Undo, false, false),
            ];
            assert(self.tools@ =~= initial_tools());
        }
        if self.actions.len() != 4 {
            self.actions = vec![
                button(Command::Deliver(Deliverable::Upload), Icon::Upload, false, false),
                button(Command::Deliver(Deliverable::Copy), Icon::CopyImage, false, false),
                button(Command::Deliver(Deliverable::Save), Icon::Save, false, false),
                button(Command::Close, Icon::Close, true, false),
            ];
            assert(self.actions@ =~= initial_actions());
        }
        let ghost base_tools = self.tools@;
        let ghost base_actions = self.actions@;
        let mut i: usize = 0;
        while i < 6
            invariant
                i <= 6,
                self.tools@.len() == 8,
                base_tools.len() == 8,
                self.actions@ == base_actions,
                forall|k: int| 0 <= k < i ==> #[trigger] self.tools@[k] == refreshed_tool(base_tools[k], k, tool, can_undo),
                forall|k: int| i <= k < 8 ==> #[trigger] self.tools@[k] == base_tools[k],
            decreases 6 - i,
        {
            let mut b = self.tools[i];
            if let Command::Tool(t) = b.command {
                b.active = t == tool;
            }
            self.tools.set(i, b);
            i = i + 1;
        }
        let mut undo = self.tools[7];
        undo.enabled = can_undo;
        self.tools.set(7, undo);
        assert forall|k: int| 0 <= k < 8 implies #[trigger] self.tools@[k] == refreshed_tool(base_tools[k], k, tool, can_undo) by {}
        let mut j: usize = 0;
        while j < 3
            invariant
                j <= 3,
                self.actions@.len() == 4,
                base_actions.len() == 4,
                forall|k: int| 0 <= k < 8 ==> #[trigger] self.tools@[k] == refreshed_tool(base_tools[k], k, tool, can_undo),
                self.tools@.len() == 8,
                forall|k: int| 0 <= k < j ==> #[trigger] self.actions@[k] == refreshed_action(base_actions[k], k, ready),
                forall|k: int| j <= k < 4 ==> #[trigger] self.actions@[k] == base_actions[k],
            decreases 3 - j,
        {
            let mut b = self.actions[j];
            b.enabled = ready;
            self.actions.set(j, b);
            j = j + 1;
        }
    }
}

/// How much of the backdrop's colour survives dimming, out of 255.
pub const DIM_KEEP: u32 = 150;

/// A colour channel of the dimmed backdrop: scaled by 150/255, rounded to nearest.
pub open spec fn dimmed_channel(v: u8) -> u8 {
    (((v as int) * (DIM_KEEP as int) + 127) / 255) as u8
}

/// Byte `j` of a dimmed copy: colour channels dimmed, alpha kept.
pub open spec fn dimmed_byte(src: Seq<u8>, j: int) -> u8 {
    if j % 4 == 3 || j >= src.len() - src.len() % 4 {
        if j >= src.len() - src.len() % 4 { 0u8 } else { src[j] }
    } else {
        dimmed_channel(src[j])
    }
}

/// Dims the colour channels of RGBA rows, keeping alpha; a trailing
/// partial pixel comes out zeroed.
pub fn dimmed_pixels(src: &[u8]) -> (out: Vec<u8>)
    ensures
        out@.len() == src@.len(),
        forall|j: int| 0 <= j < src@.len() ==> #[trigger] out@[j] == dimmed_byte(src@, j),
{
    let n = src.len();
    let total = n - n % 4;
    let mut out: Vec<u8> = Vec::with_capacity(n);
    let mut i: usize = 0;
    while i < total
        invariant
            i % 4 == 0,
            total % 4 == 0,
            i <= total,
            n == src@.len(),
            total == n - n % 4,
            out@.len() == i,
            forall|j: int| 0 <= j < i ==> #[trigger] out@[j] == dimmed_byte(src@, j),
        decreases total - i,
    {
        out.push(dim_channel(src[i]));
        out.push(dim_channel(src[i + 1]));
        out.push(dim_channel(src[i + 2]));
        out.push(src[i + 3]);
        assert forall|j: int| 0 <= j < i + 4 implies #[trigger] out@[j] == dimmed_byte(src@, j) by {
            if j >= i {
                assert(j - i < 4);
            }
        }
        i = i + 4;
    }
    while i < n
        invariant
            total <= i <= n,
            n == src@.len(),
            total == n - n % 4,
            out@.len() == i,
            forall|j: int| 0 <= j < i ==> #[trigger] out@[j] == dimmed_byte(src@, j),
        decreases n - i,
    {
        out.push(0);
        i = i + 1;
    }
    out
}

fn dim_channel(v: u8) -> (r: u8)
    ensures
        r == dimmed_channel(v),
{
    assert((v as int) * 150 <= 38250) by (nonlinear_arith)
        requires
            v <= 255,
    ;
    (((v as u32) * DIM_KEEP + 127) / 255) as u8
}

/// Dimming never brightens a channel.
pub proof fn law_dimming_darkens(v: u8)
    ensures
        dimmed_channel(v) <= v,
{
    assert(((v as int) * 150 + 127) / 255 <= v) by (nonlinear_arith)
        requires
            0 <= v <= 255,
    ;
}

#[verifier::external_type_specification]
#[verifier::external_body]
pub struct ExPixmap(Pixmap);

/// The RGBA bytes a pixmap holds.
pub uninterp spec fn pixmap_bytes(p: Pixmap) -> Seq<u8>;

/// The width a pixmap was made with.
pub uninterp spec fn pixmap_width(p: Pixmap) -> u32;

/// The height a pixmap was made with.
pub uninterp spec fn pixmap_height(p: Pixmap) -> u32;

/// `Pixmap::data`: the pixmap's RGBA bytes, at least `width * height * 4`
/// of them (a pixmap copied from a longer borrowed buffer keeps its length).
#[verifier::external_body]
fn pixmap_data(p: &Pixmap) -> (d: &[u8])
    ensures
        d@ == pixmap_bytes(*p),
        d@.len() >= pixmap_width(*p) * pixmap_height(*p) * 4,
{
    p.data()
}

/// `Pixmap::width`: positive, and at most `i32::MAX / 4`.
#[verifier::external_body]
fn pixmap_columns(p: &Pixmap) -> (w: u32)
    ensures
        w == pixmap_width(*p),
        0 < w,
        w * 4 <= i32::MAX,
{
    p.width()
}

/// `Pixmap::height`: positive.
#[verifier::external_body]
fn pixmap_rows(p: &Pixmap) -> (h: u32)
    ensures
        h == pixmap_height(*p),
        0 < h,
{
    p.height()
}

/// `Pixmap::from_vec` with the size built by `IntSize::from_wh`: a pixmap
/// exactly when both sides are positive, four bytes per pixel fit in an
/// `i32` row, and the buffer holds `width * height` pixels.
#[verifier::external_body]
fn pixmap_from_rgba(data: Vec<u8>, width: u32, height: u32) -> (r: Option<Pixmap>)
    ensures
        r is Some <==> (width > 0 && height > 0 && width * 4 <= i32::MAX && data@.len() == width * height
            * 4),
        match r {
            Some(p) => pixmap_bytes(p) == data@ && pixmap_width(p) == width && pixmap_height(p) == height,
            None => true,
        },
{
    Pixmap::from_vec(data, IntSize::from_wh(width, height)?)
}

/// A pixmap of `width` by `height` pixels holding exactly the RGBA bytes
/// `data`; `None` when a side is zero, a row of four-byte pixels does not
/// fit in an `i32`, or `data` is not exactly `width * height` pixels.
pub fn pixmap_from_pixels(data: Vec<u8>, width: u32, height: u32) -> (r: Option<Pixmap>)
    ensures
        r is Some <==> (width > 0 && height > 0 && width * 4 <= i32::MAX && data@.len() == width * height
            * 4),
        match r {
            Some(p) => pixmap_bytes(p) == data@ && pixmap_width(p) == width && pixmap_height(p) == height,
            None => true,
        },
{
    pixmap_from_rgba(data, width, height)
}

/// A copy of a frame with its colours dimmed and its alpha kept; the
/// backdrop outside the selection. The frame holds exactly its
/// `width * height` pixels (a longer buffer has no pixmap of that size to
/// be copied into).
pub fn dimmed_copy(frame: &Pixmap) -> (d: Pixmap)
    requires
        pixmap_bytes(*frame).len() == pixmap_width(*frame) * pixmap_height(*frame) * 4,
    ensures
        pixmap_width(d) == pixmap_width(*frame),
        pixmap_height(d) == pixmap_height(*frame),
        pixmap_bytes(d).len() == pixmap_bytes(*frame).len(),
        forall|j: int|
            0 <= j < pixmap_bytes(*frame).len() ==> #[trigger] pixmap_bytes(d)[j] == dimmed_byte(
                pixmap_bytes(*frame),
                j,
            ),
{
    let src = pixmap_data(frame);
    let data = dimmed_pixels(src);
    let width = pixmap_columns(frame);
    let height = pixmap_rows(frame);
    pixmap_from_rgba(data, width, height).unwrap()
}

/// `d` with the `n` bytes of `s` from offset `from` written at offset `at`.
pub open spec fn copy_run(d: Seq<u8>, at: int, s: Seq<u8>, from: int, n: int) -> Seq<u8> {
    Seq::new(d.len(), |q: int| if at <= q < at + n { s[from + (q - at)] } else { d[q] })
}

/// `d` after the first `rows` row copies of a blit: row `k` copies
/// `row_bytes` bytes from `src0 + k * src_step` to `dst0 + k * dst_step`,
/// later rows writing over earlier ones where they meet.
pub open spec fn copy_rows(
    d: Seq<u8>,
    s: Seq<u8>,
    dst0: int,
    dst_step: int,
    src0: int,
    src_step: int,
    row_bytes: int,
    rows: nat,
) -> Seq<u8>
    decreases rows,
{
    if rows == 0 {
        d
    } else {
        let k = (rows - 1) as nat;
        copy_run(
            copy_rows(d, s, dst0, dst_step, src0, src_step, row_bytes, k),
            dst0 + k * dst_step,
            s,
            src0 + k * src_step,
            row_bytes,
        )
    }
}

/// Byte offset of pixel (`x`, `y`) in RGBA rows `stride` pixels wide.
pub open spec fn pixel_offset(stride: int, x: int, y: int) -> int {
    (y * stride + x) * 4
}

/// Copies a `width` by `height` block of RGBA pixels from (`source_x`,
/// `source_y`) in `source` to (`dest_x`, `dest_y`) in `dest`, row by row;
/// strides are in pixels.
pub fn blit(
    dest: &mut [u8],
    dest_stride_px: usize,
    dest_x: usize,
    dest_y: usize,
    source: &[u8],
    source_stride_px: usize,
    source_x: usize,
    source_y: usize,
    width: usize,
    height: usize,
)
    requires
        width * 4 <= usize::MAX,
        dest_stride_px * 4 <= usize::MAX,
        source_stride_px * 4 <= usize::MAX,
        pixel_offset(dest_stride_px as int, dest_x as int, dest_y as int) + height * (dest_stride_px * 4)
            <= usize::MAX,
        pixel_offset(source_stride_px as int, source_x as int, source_y as int) + height * (
        source_stride_px * 4) <= usize::MAX,
        height > 0 ==> pixel_offset(dest_stride_px as int, dest_x as int, dest_y as int) + (height - 1)
            * (dest_stride_px * 4) + width * 4 <= old(dest)@.len(),
        height > 0 ==> pixel_offset(source_stride_px as int, source_x as int, source_y as int) + (height
            - 1) * (source_stride_px * 4) + width * 4 <= source@.len(),
    ensures
        final(dest)@ == copy_rows(
            old(dest)@,
            source@,
            pixel_offset(dest_stride_px as int, dest_x as int, dest_y as int),
            dest_stride_px * 4,
            pixel_offset(source_stride_px as int, source_x as int, source_y as int),
            source_stride_px * 4,
            width * 4,
            height as nat,
        ),
{
    let ghost dst0 = pixel_offset(dest_stride_px as int, dest_x as int, dest_y as int);
    let ghost src0 = pixel_offset(source_stride_px as int, source_x as int, source_y as int);
    assert(0 <= dest_y * dest_stride_px) by (nonlinear_arith);
    assert(0 <= source_y * source_stride_px) by (nonlinear_arith);
    assert(0 <= height * (dest_stride_px * 4)) by (nonlinear_arith);
    assert(0 <= height * (source_stride_px * 4)) by (nonlinear_arith);
    let row_bytes = width * 4;
    let src_stride_bytes = source_stride_px * 4;
    let dst_stride_bytes = dest_stride_px * 4;
    let mut src = (source_y * source_stride_px + source_x) * 4;
    let mut dst = (dest_y * dest_stride_px + dest_x) * 4;
    let mut r: usize = 0;
    while r < height
        invariant
            r <= height,
            src == src0 + r * src_stride_bytes,
            dst == dst0 + r * dst_stride_bytes,
            src_stride_bytes == source_stride_px * 4,
            dst_stride_bytes == dest_stride_px * 4,
            row_bytes == width * 4,
            src0 + height * src_stride_bytes <= usize::MAX,
            dst0 + height * dst_stride_bytes <= usize::MAX,
            height > 0 ==> dst0 + (height - 1) * dst_stride_bytes + row_bytes <= old(dest)@.len(),
            height > 0 ==> src0 + (height - 1) * src_stride_bytes + row_bytes <= source@.len(),
            0 <= src0,
            0 <= dst0,
            dest@.len() == old(dest)@.len(),
            dest@ == copy_rows(old(dest)@, source@, dst0, dst_stride_bytes as int, src0, src_stride_bytes as int, row_bytes as int, r as nat),
        decreases height - r,
    {
        assert(r * dst_stride_bytes <= (height - 1) * dst_stride_bytes) by (nonlinear_arith)
            requires
                r < height,
        ;
        assert(r * src_stride_bytes <= (height - 1) * src_stride_bytes) by (nonlinear_arith)
            requires
                r < height,
        ;
        let ghost before = dest@;
        let mut c: usize = 0;
        while c < row_bytes
            invariant
                c <= row_bytes,
                dst + row_bytes <= before.len(),
                src + row_bytes <= source@.len(),
                dest@.len() == before.len(),
                dest@ == copy_run(before, dst as int, source@, src as int, c as int),
            decreases row_bytes - c,
        {
            assert(dest@.len() == dest.len());
            assert(source@.len() == source.len());
            dest[dst + c] = source[src + c];
            assert(dest@ =~= copy_run(before, dst as int, source@, src as int, c + 1));
            c = c + 1;
        }
        assert((r + 1) * src_stride_bytes <= height * src_stride_bytes) by (nonlinear_arith)
            requires
                r < height,
        ;
        assert((r + 1) * dst_stride_bytes <= height * dst_stride_bytes) by (nonlinear_arith)
            requires
                r < height,
        ;
        assert((r + 1) * src_stride_bytes == r * src_stride_bytes + src_stride_bytes) by (nonlinear_arith);
        assert((r + 1) * dst_stride_bytes == r * dst_stride_bytes + dst_stride_bytes) by (nonlinear_arith);
        src = src + src_stride_bytes;
        dst = dst + dst_stride_bytes;
        r = r + 1;
    }
}

/// When each row fits within one stride, a blit copies the whole block:
/// byte `c` of row `r` at the destination is byte `c` of row `r` at the source.
pub proof fn law_blit_copies_block(
    d: Seq<u8>,
    s: Seq<u8>,
    dst0: int,
    dst_step: int,
    src0: int,
    src_step: int,
    row_bytes: int,
    rows: nat,
    r: int,
    c: int,
)
    requires
        0 <= row_bytes <= dst_step,
        0 <= r < rows,
        0 <= c < row_bytes,
        0 <= dst0,
        dst0 + (rows - 1) * dst_step + row_bytes <= d.len(),
    ensures
        copy_rows(d, s, dst0, dst_step, src0, src_step, row_bytes, rows).len() == d.len(),
        copy_rows(d, s, dst0, dst_step, src0, src_step, row_bytes, rows)[dst0 + r * dst_step + c] == s[src0
            + r * src_step + c],
    decreases rows,
{
    let k = (rows - 1) as nat;
    lemma_copy_rows_len(d, s, dst0, dst_step, src0, src_step, row_bytes, k);
    if r < k {
        assert(dst0 + (k - 1) * dst_step + row_bytes <= d.len()) by (nonlinear_arith)
            requires
                dst0 + (rows - 1) * dst_step + row_bytes <= d.len(),
                k == rows - 1,
                dst_step >= 0,
        ;
        law_blit_copies_block(d, s, dst0, dst_step, src0, src_step, row_bytes, k, r, c);
        assert(r * dst_step + c < k * dst_step) by (nonlinear_arith)
            requires
                r < k,
                0 <= c < row_bytes,
                row_bytes <= dst_step,
                0 <= r,
        ;
    }
}

/// A blit leaves every byte outside the copied rows as it was: a byte that
/// lies in none of the `rows` destination runs keeps its value.
pub proof fn law_blit_keeps_other_bytes(
    d: Seq<u8>,
    s: Seq<u8>,
    dst0: int,
    dst_step: int,
    src0: int,
    src_step: int,
    row_bytes: int,
    rows: nat,
    q: int,
)
    requires
        0 <= q < d.len(),
        forall|k: int|
            0 <= k < rows ==> !(dst0 + #[trigger] (k * dst_step) <= q < dst0 + k * dst_step + row_bytes),
    ensures
        copy_rows(d, s, dst0, dst_step, src0, src_step, row_bytes, rows)[q] == d[q],
    decreases rows,
{
    if rows > 0 {
        let k = (rows - 1) as nat;
        lemma_copy_rows_len(d, s, dst0, dst_step, src0, src_step, row_bytes, k);
        assert(!(dst0 + (k as int) * dst_step <= q < dst0 + (k as int) * dst_step + row_bytes));
        law_blit_keeps_other_bytes(d, s, dst0, dst_step, src0, src_step, row_bytes, k, q);
    }
}

proof fn lemma_copy_rows_len(
    d: Seq<u8>,
    s: Seq<u8>,
    dst0: int,
    dst_step: int,
    src0: int,
    src_step: int,
    row_bytes: int,
    rows: nat,
)
    ensures
        copy_rows(d, s, dst0, dst_step, src0, src_step, row_bytes, rows).len() == d.len(),
    decreases rows,
{
    if rows > 0 {
        lemma_copy_rows_len(d, s, dst0, dst_step, src0, src_step, row_bytes, (rows - 1) as nat);
    }
}

} // verus!
