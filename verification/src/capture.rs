//! Capture devices as the host registers them, sources that the host feeds,
//! and a generator of test pictures.

use vstd::prelude::*;
use crate::av::PixelFormat;
use crate::av::SourceError;
use crate::av::VideoFormat;
use crate::av::VideoFrame;
use crate::av::VideoSource;
use crate::clock::now_millis;
use crate::moq_protocol::object::copy_bytes;
use crate::text::str_eq;

verus! {

/// Kind of a capture device.
#[derive(Debug, Clone, Copy, PartialEq, Eq, Structural)]
pub enum CaptureDeviceType {
    Camera,
    Screen,
    Window,
}

/// What is known of a capture device.
#[derive(Debug, Clone)]
pub struct CaptureDeviceInfo {
    pub id: String,
    pub name: String,
    pub device_type: CaptureDeviceType,
    pub native_width: u32,
    pub native_height: u32,
}

/// What is known of a capture device, as mathematical values.
pub struct DeviceModel {
    pub id: Seq<char>,
    pub name: Seq<char>,
    pub device_type: CaptureDeviceType,
    pub native_width: u32,
    pub native_height: u32,
}

impl View for CaptureDeviceInfo {
    type V = DeviceModel;

    open spec fn view(&self) -> DeviceModel {
        DeviceModel {
            id: self.id@,
            name: self.name@,
            device_type: self.device_type,
            native_width: self.native_width,
            native_height: self.native_height,
        }
    }
}

impl CaptureDeviceInfo {
    /// A copy that holds the same values.
    pub fn duplicate(&self) -> (c: Self)
        ensures
            c@ == self@,
    {
        Self {
            id: self.id.clone(),
            name: self.name.clone(),
            device_type: self.device_type,
            native_width: self.native_width,
            native_height: self.native_height,
        }
    }
}

/// A video source that stands for a device and can be started and stopped.
pub trait CaptureSource: VideoSource {
    fn device_info(&self) -> &CaptureDeviceInfo;

    fn start(&mut self) -> Result<(), SourceError>;

    fn stop(&mut self) -> Result<(), SourceError>;

    fn is_capturing(&self) -> bool;
}

/// A copy of a frame that holds the same values.
pub fn copy_frame(f: &VideoFrame) -> (c: VideoFrame)
    ensures
        c.format == f.format,
        c.data@ == f.data@,
        c.timestamp_us == f.timestamp_us,
        c.pts_us == f.pts_us,
{
    VideoFrame {
        format: f.format,
        data: copy_bytes(&f.data),
        timestamp_us: f.timestamp_us,
        pts_us: f.pts_us,
    }
}

/// A source whose pictures the host hands in: a camera, a screen or a
/// window. While it captures, it hands out the newest picture it was given.
pub struct Capturer {
    device_info: CaptureDeviceInfo,
    format: VideoFormat,
    capturing: bool,
    last_frame: Option<VideoFrame>,
}

/// A camera that the host feeds.
pub type CameraCapturer = Capturer;

/// A screen that the host feeds.
pub type ScreenCapturer = Capturer;

impl Capturer {
    pub closed spec fn device(&self) -> DeviceModel {
        self.device_info@
    }

    pub closed spec fn spec_format(&self) -> VideoFormat {
        self.format
    }

    pub closed spec fn capturing(&self) -> bool {
        self.capturing
    }

    /// The bytes of the newest picture, if one was handed in.
    pub closed spec fn newest(&self) -> Option<Seq<u8>> {
        match self.last_frame {
            Some(f) => Some(f.data@),
            None => None,
        }
    }

    /// A source for the device `device_type` that does not capture yet.
    pub fn for_device(
        device_type: CaptureDeviceType,
        device_id: String,
        device_name: String,
        width: u32,
        height: u32,
    ) -> (c: Self)
        ensures
            c.device() == (DeviceModel {
                id: device_id@,
                name: device_name@,
                device_type,
                native_width: width,
                native_height: height,
            }),
            c.spec_format() == (VideoFormat { pixel_format: PixelFormat::Rgba, width, height }),
            !c.capturing(),
            c.newest() is None,
    {
        Self {
            device_info: CaptureDeviceInfo {
                id: device_id,
                name: device_name,
                device_type,
                native_width: width,
                native_height: height,
            },
            format: VideoFormat::rgba(width, height),
            capturing: false,
            last_frame: None,
        }
    }

    /// A camera source that does not capture yet.
    pub fn camera(device_id: String, device_name: String, width: u32, height: u32) -> (c: Self)
        ensures
            c.device() == (DeviceModel {
                id: device_id@,
                name: device_name@,
                device_type: CaptureDeviceType::Camera,
                native_width: width,
                native_height: height,
            }),
            c.spec_format() == (VideoFormat { pixel_format: PixelFormat::Rgba, width, height }),
            !c.capturing(),
            c.newest() is None,
    {
        Self::for_device(CaptureDeviceType::Camera, device_id, device_name, width, height)
    }

    /// A screen source that does not capture yet.
    pub fn screen(screen_id: String, screen_name: String, width: u32, height: u32) -> (c: Self)
        ensures
            c.device() == (DeviceModel {
                id: screen_id@,
                name: screen_name@,
                device_type: CaptureDeviceType::Screen,
                native_width: width,
                native_height: height,
            }),
            c.spec_format() == (VideoFormat { pixel_format: PixelFormat::Rgba, width, height }),
            !c.capturing(),
            c.newest() is None,
    {
        Self::for_device(CaptureDeviceType::Screen, screen_id, screen_name, width, height)
    }

    /// Hands in a picture: it is the newest from now on.
    pub fn push_frame(&mut self, frame: VideoFrame)
        ensures
            final(self).newest() == Some(frame.data@),
            final(self).device() == old(self).device(),
            final(self).spec_format() == old(self).spec_format(),
            final(self).capturing() == old(self).capturing(),
    {
        self.last_frame = Some(frame);
    }
}

impl VideoSource for Capturer {
    fn format(&self) -> (f: VideoFormat)
        ensures
            f == self.spec_format(),
    {
        self.format
    }

    /// The newest picture while the source captures, else nothing.
    fn pop_frame(&mut self) -> (r: Result<Option<VideoFrame>, SourceError>)
        ensures
            *final(self) == *old(self),
            r is Ok,
            match r->Ok_0 {
                Some(f) => old(self).capturing() && old(self).newest() == Some(f.data@),
                None => !old(self).capturing() || old(self).newest() is None,
            },
    {
        if !self.capturing {
            return Ok(None);
        }
        match &self.last_frame {
            Some(f) => Ok(Some(copy_frame(f))),
            None => Ok(None),
        }
    }
}

impl CaptureSource for Capturer {
    fn device_info(&self) -> (d: &CaptureDeviceInfo)
        ensures
            d@ == self.device(),
    {
        &self.device_info
    }

    fn start(&mut self) -> (r: Result<(), SourceError>)
        ensures
            r is Ok,
            final(self).capturing(),
            final(self).device() == old(self).device(),
            final(self).spec_format() == old(self).spec_format(),
            final(self).newest() == old(self).newest(),
    {
        self.capturing = true;
        Ok(())
    }

    fn stop(&mut self) -> (r: Result<(), SourceError>)
        ensures
            r is Ok,
            !final(self).capturing(),
            final(self).device() == old(self).device(),
            final(self).spec_format() == old(self).spec_format(),
            final(self).newest() == old(self).newest(),
    {
        self.capturing = false;
        Ok(())
    }

    fn is_capturing(&self) -> (b: bool)
        ensures
            b == self.capturing(),
    {
        self.capturing
    }
}

/// The pictures that the test source can paint.
#[derive(Debug, Clone, Copy, PartialEq, Eq, Structural)]
pub enum TestPattern {
    ColorBars,
    Gradient,
    MovingBox,
    Noise,
}

/// Side of the moving box in pixels.
pub const BOX_SIZE: u32 = 50;

/// Red, green and blue of bar `bar`: white, yellow, cyan, green, magenta,
/// red, blue, black.
pub open spec fn bar_color(bar: int) -> (u8, u8, u8) {
    if bar == 0 {
        (255, 255, 255)
    } else if bar == 1 {
        (255, 255, 0)
    } else if bar == 2 {
        (0, 255, 255)
    } else if bar == 3 {
        (0, 255, 0)
    } else if bar == 4 {
        (255, 0, 255)
    } else if bar == 5 {
        (255, 0, 0)
    } else if bar == 6 {
        (0, 0, 255)
    } else {
        (0, 0, 0)
    }
}

/// The grey value of the noise picture `seed` at a pixel.
pub open spec fn noise_at(seed: u64, x: u32, y: u32) -> u8 {
    ((vstd::wrapping::u64_specs::wrapping_mul(seed, 31337) ^ ((x as u64 * 7919) as u64) ^ ((y as u64
        * 104729) as u64)) % 256) as u8
}

/// Whether a pattern can be painted in a size: colour bars need a width of
/// 8 pixels, the moving box a picture larger than the box.
pub open spec fn paintable(pattern: TestPattern, width: u32, height: u32) -> bool {
    match pattern {
        TestPattern::ColorBars => width >= 8,
        TestPattern::MovingBox => width > BOX_SIZE && height > BOX_SIZE,
        _ => true,
    }
}

/// Red, green and blue of the pixel `(x, y)` of picture number
/// `frame_count`.
pub open spec fn pattern_rgb(
    pattern: TestPattern,
    width: u32,
    height: u32,
    frame_count: u64,
    x: u32,
    y: u32,
) -> (u8, u8, u8) {
    match pattern {
        TestPattern::ColorBars => {
            let bar = x as int / (width as int / 8);
            bar_color(
                if bar < 7 {
                    bar
                } else {
                    7
                },
            )
        },
        TestPattern::Gradient => (
            ((x * 255) / (width as int)) as u8,
            ((y * 255) / (height as int)) as u8,
            128,
        ),
        TestPattern::MovingBox => {
            let box_x = (frame_count * 3) % (width - BOX_SIZE);
            let box_y = (frame_count * 2) % (height - BOX_SIZE);
            if box_x <= x && x < box_x + BOX_SIZE && box_y <= y && y < box_y + BOX_SIZE {
                (255, 0, 0)
            } else {
                (32, 32, 64)
            }
        },
        TestPattern::Noise => {
            let n = noise_at(frame_count, x, y);
            (n, n, n)
        },
    }
}

/// Byte `i` of the picture: red, green, blue and full opacity for each
/// pixel, row by row.
pub open spec fn pattern_byte(
    pattern: TestPattern,
    width: u32,
    height: u32,
    frame_count: u64,
    i: int,
) -> u8 {
    let pixel = i / 4;
    let x = (pixel % (width as int)) as u32;
    let y = (pixel / (width as int)) as u32;
    let rgb = pattern_rgb(pattern, width, height, frame_count, x, y);
    if i % 4 == 0 {
        rgb.0
    } else if i % 4 == 1 {
        rgb.1
    } else if i % 4 == 2 {
        rgb.2
    } else {
        255
    }
}

/// The picture number `frame_count` of a pattern.
pub open spec fn pattern_picture(pattern: TestPattern, width: u32, height: u32, frame_count: u64) -> Seq<
    u8,
> {
    Seq::new(
        (width * height * 4) as nat,
        |i: int| pattern_byte(pattern, width, height, frame_count, i),
    )
}

/// Red, green and blue of one pixel.
fn paint_pixel(pattern: TestPattern, width: u32, height: u32, frame_count: u64, x: u32, y: u32) -> (rgb: (
    u8,
    u8,
    u8,
))
    requires
        paintable(pattern, width, height),
        x < width,
        y < height,
    ensures
        rgb == pattern_rgb(pattern, width, height, frame_count, x, y),
{
    match pattern {
        TestPattern::ColorBars => {
            let bar = x / (width / 8);
            let bar = if bar < 7 {
                bar
            } else {
                7
            };
            if bar == 0 {
                (255, 255, 255)
            } else if bar == 1 {
                (255, 255, 0)
            } else if bar == 2 {
                (0, 255, 255)
            } else if bar == 3 {
                (0, 255, 0)
            } else if bar == 4 {
                (255, 0, 255)
            } else if bar == 5 {
                (255, 0, 0)
            } else if bar == 6 {
                (0, 0, 255)
            } else {
                (0, 0, 0)
            }
        },
        TestPattern::Gradient => {
            let r = (x as u64 * 255) / (width as u64);
            let g = (y as u64 * 255) / (height as u64);
            assert(r < 255 && g < 255) by (nonlinear_arith)
                requires
                    r == (x * 255) / (width as int),
                    g == (y * 255) / (height as int),
                    x < width,
                    y < height,
            ;
            (r as u8, g as u8, 128)
        },
        TestPattern::MovingBox => {
            let box_x = ((frame_count as u128 * 3) % ((width - BOX_SIZE) as u128)) as u64;
            let box_y = ((frame_count as u128 * 2) % ((height - BOX_SIZE) as u128)) as u64;
            let xi = x as u64;
            let yi = y as u64;
            if box_x <= xi && xi < box_x + BOX_SIZE as u64 && box_y <= yi && yi < box_y
                + BOX_SIZE as u64 {
                (255, 0, 0)
            } else {
                (32, 32, 64)
            }
        },
        TestPattern::Noise => {
            let n = ((frame_count.wrapping_mul(31337) ^ (x as u64 * 7919) ^ (y as u64 * 104729))
                % 256) as u8;
            (n, n, n)
        },
    }
}

/// The picture number `frame_count` of a pattern.
pub fn paint(pattern: TestPattern, width: u32, height: u32, frame_count: u64) -> (data: Vec<u8>)
    requires
        paintable(pattern, width, height),
        width * height * 4 <= usize::MAX,
    ensures
        data@ == pattern_picture(pattern, width, height, frame_count),
{
    let mut data: Vec<u8> = Vec::new();
    let mut y: u32 = 0;
    proof {
        assert(0 * width * 4 == 0) by (nonlinear_arith);
        assert(data@ =~= Seq::new(
            0nat,
            |i: int| pattern_byte(pattern, width, height, frame_count, i),
        ));
    }
    while y < height
        invariant
            paintable(pattern, width, height),
            width * height * 4 <= usize::MAX,
            0 <= y <= height,
            data@ == Seq::new(
                (y * width * 4) as nat,
                |i: int| pattern_byte(pattern, width, height, frame_count, i),
            ),
        decreases height - y,
    {
        let mut x: u32 = 0;
        proof {
            assert((y * width + 0) * 4 == y * width * 4) by (nonlinear_arith);
            assert((y + 1) * width <= height * width) by (nonlinear_arith)
                requires
                    y + 1 <= height,
            ;
            assert(height * width == width * height) by (nonlinear_arith);
        }
        while x < width
            invariant
                paintable(pattern, width, height),
                (y + 1) * width <= width * height,
                width * height * 4 <= usize::MAX,
                0 <= y < height,
                0 <= x <= width,
                data@ == Seq::new(
                    ((y * width + x) * 4) as nat,
                    |i: int| pattern_byte(pattern, width, height, frame_count, i),
                ),
            decreases width - x,
        {
            let rgb = paint_pixel(pattern, width, height, frame_count, x, y);
            let ghost pixel = y * width + x;
            proof {
                assert(y * width >= 0) by (nonlinear_arith);
                vstd::arithmetic::div_mod::lemma_fundamental_div_mod_converse(
                    pixel,
                    width as int,
                    y as int,
                    x as int,
                );
                assert((y * width + x + 1) * 4 == pixel * 4 + 4);
            }
            data.push(rgb.0);
            data.push(rgb.1);
            data.push(rgb.2);
            data.push(255);
            proof {
                assert(data@ =~= Seq::new(
                    ((y * width + (x + 1)) * 4) as nat,
                    |i: int| pattern_byte(pattern, width, height, frame_count, i),
                ));
            }
            x = x + 1;
        }
        proof {
            assert((y + 1) * width == y * width + width) by (nonlinear_arith);
            assert((y * width + width) * 4 == (y + 1) * width * 4) by (nonlinear_arith);
        }
        y = y + 1;
    }
    proof {
        assert(height * width * 4 == width * height * 4) by (nonlinear_arith);
        assert(data@ =~= pattern_picture(pattern, width, height, frame_count));
    }
    data
}

/// Number of pictures that are due after `elapsed_ms` milliseconds at `fps`
/// pictures per second.
pub open spec fn frames_due(elapsed_ms: u64, fps: u32) -> int {
    (elapsed_ms * fps) / 1000
}

/// Microseconds from the start at which picture `index` is shown.
pub open spec fn frame_time_us(index: u64, fps: u32) -> int {
    (index * 1_000_000) / (fps as int)
}

/// A source of test pictures at a fixed rate.
pub struct TestPatternSource {
    format: VideoFormat,
    frame_count: u64,
    start_ms: u64,
    fps: u32,
    pattern: TestPattern,
}

impl TestPatternSource {
    pub closed spec fn spec_format(&self) -> VideoFormat {
        self.format
    }

    /// Pictures handed out so far.
    pub closed spec fn frame_count(&self) -> u64 {
        self.frame_count
    }

    /// Milliseconds since the Unix epoch at which the source started.
    pub closed spec fn start_ms(&self) -> u64 {
        self.start_ms
    }

    pub closed spec fn fps(&self) -> u32 {
        self.fps
    }

    pub closed spec fn pattern(&self) -> TestPattern {
        self.pattern
    }

    /// A source that started at `start_ms`.
    pub fn new_at(width: u32, height: u32, fps: u32, pattern: TestPattern, start_ms: u64) -> (s: Self)
        ensures
            s.spec_format() == (VideoFormat { pixel_format: PixelFormat::Rgba, width, height }),
            s.frame_count() == 0,
            s.start_ms() == start_ms,
            s.fps() == fps,
            s.pattern() == pattern,
    {
        Self { format: VideoFormat::rgba(width, height), frame_count: 0, start_ms, fps, pattern }
    }

    /// A source that starts at the clock's reading.
    pub fn new(width: u32, height: u32, fps: u32, pattern: TestPattern) -> (s: Self)
        ensures
            s.spec_format() == (VideoFormat { pixel_format: PixelFormat::Rgba, width, height }),
            s.frame_count() == 0,
            s.fps() == fps,
            s.pattern() == pattern,
    {
        Self::new_at(width, height, fps, pattern, now_millis())
    }

    /// Whether the source can hand out its next picture: the pattern can be
    /// painted in the source's size, the picture fits in memory, and the
    /// picture's number and time can be counted.
    pub open spec fn can_paint(&self) -> bool {
        &&& paintable(self.pattern(), self.spec_format().width, self.spec_format().height)
        &&& self.spec_format().width * self.spec_format().height * 4 <= usize::MAX
        &&& self.frame_count() < u64::MAX
        &&& self.fps() > 0 ==> frame_time_us(self.frame_count(), self.fps()) <= u64::MAX
    }

    /// The next picture, if one is due at `now_ms`; nothing if none is due
    /// yet; an error where one is due and cannot be painted.
    pub fn pop_frame_at(&mut self, now_ms: u64) -> (r: Result<Option<VideoFrame>, SourceError>)
        ensures
            final(self).spec_format() == old(self).spec_format(),
            final(self).start_ms() == old(self).start_ms(),
            final(self).fps() == old(self).fps(),
            final(self).pattern() == old(self).pattern(),
            ({
                let elapsed = if now_ms >= old(self).start_ms() {
                    (now_ms - old(self).start_ms()) as u64
                } else {
                    0u64
                };
                if old(self).frame_count() >= frames_due(elapsed, old(self).fps()) {
                    r == Ok::<Option<VideoFrame>, SourceError>(None) && final(self).frame_count()
                        == old(self).frame_count()
                } else if !old(self).can_paint() {
                    r is Err && final(self).frame_count() == old(self).frame_count()
                } else {
                    &&& r is Ok
                    &&& r->Ok_0 is Some
                    &&& final(self).frame_count() == old(self).frame_count() + 1
                    &&& r->Ok_0->0.format == old(self).spec_format()
                    &&& r->Ok_0->0.data@ == pattern_picture(
                        old(self).pattern(),
                        old(self).spec_format().width,
                        old(self).spec_format().height,
                        old(self).frame_count(),
                    )
                    &&& r->Ok_0->0.timestamp_us == frame_time_us(
                        old(self).frame_count(),
                        old(self).fps(),
                    )
                }
            }),
    {
        let elapsed: u64 = if now_ms >= self.start_ms {
            now_ms - self.start_ms
        } else {
            0
        };
        assert(elapsed * self.fps <= 0xffff_ffff_ffff_ffff * 0xffff_ffff) by (nonlinear_arith)
            requires
                elapsed <= 0xffff_ffff_ffff_ffff,
                self.fps <= 0xffff_ffff,
        ;
        let due: u128 = (elapsed as u128 * self.fps as u128) / 1000;
        if self.frame_count as u128 >= due {
            return Ok(None);
        }
        assert(self.fps > 0) by (nonlinear_arith)
            requires
                (elapsed * self.fps) / 1000 > 0,
        ;
        let width = self.format.width;
        let height = self.format.height;
        let fits_pattern = match self.pattern {
            TestPattern::ColorBars => width >= 8,
            TestPattern::MovingBox => width > BOX_SIZE && height > BOX_SIZE,
            _ => true,
        };
        assert(width * height <= 0xffff_ffff * 0xffff_ffff) by (nonlinear_arith)
            requires
                width <= 0xffff_ffff,
                height <= 0xffff_ffff,
        ;
        let bytes: u128 = width as u128 * height as u128 * 4;
        let time: u128 = (self.frame_count as u128 * 1_000_000) / (self.fps as u128);
        if !fits_pattern || bytes > usize::MAX as u128 || self.frame_count == u64::MAX || time
            > u64::MAX as u128 {
            return Err(SourceError::Failed);
        }
        let data = paint(self.pattern, width, height, self.frame_count);
        self.frame_count = self.frame_count + 1;
        Ok(Some(VideoFrame::new(self.format, data, time as u64)))
    }
}

impl VideoSource for TestPatternSource {
    fn format(&self) -> (f: VideoFormat)
        ensures
            f == self.spec_format(),
    {
        self.format
    }

    /// The next picture, if one is due by the clock's reading.
    fn pop_frame(&mut self) -> (r: Result<Option<VideoFrame>, SourceError>)
        ensures
            final(self).spec_format() == old(self).spec_format(),
            final(self).fps() == old(self).fps(),
            final(self).pattern() == old(self).pattern(),
            final(self).frame_count() == old(self).frame_count() + if r matches Ok(Some(_)) {
                1int
            } else {
                0int
            },
            r matches Ok(Some(f)) ==> f.data@ == pattern_picture(
                old(self).pattern(),
                old(self).spec_format().width,
                old(self).spec_format().height,
                old(self).frame_count(),
            ),
    {
        let now = now_millis();
        self.pop_frame_at(now)
    }
}

pub open spec fn device_models(v: Seq<CaptureDeviceInfo>) -> Seq<DeviceModel> {
    v.map_values(|d: CaptureDeviceInfo| d@)
}

/// Position of the first device with id `id`, or the number of devices.
pub open spec fn device_position(devices: Seq<DeviceModel>, id: Seq<char>) -> int
    decreases devices.len(),
{
    if devices.len() == 0 || devices[0].id == id {
        0
    } else {
        1 + device_position(devices.skip(1), id)
    }
}

/// The position of the device `id` is `i` where no device before `i` has
/// that id and the device at `i`, if there is one, has it.
pub proof fn lemma_device_position_is(devices: Seq<DeviceModel>, id: Seq<char>, i: int)
    requires
        0 <= i <= devices.len(),
        forall|k: int| 0 <= k < i ==> devices[k].id != id,
        i < devices.len() ==> devices[i].id == id,
    ensures
        device_position(devices, id) == i,
    decreases devices.len(),
{
    if devices.len() == 0 || devices[0].id == id {
    } else {
        let t = devices.skip(1);
        assert forall|k: int| 0 <= k < i - 1 implies t[k].id != id by {
            assert(t[k] == devices[k + 1]);
        }
        if i - 1 < t.len() {
            assert(t[i - 1] == devices[i]);
        }
        lemma_device_position_is(t, id, i - 1);
    }
}

/// The capture devices that the host has registered.
pub struct CaptureManager {
    cameras: Vec<CaptureDeviceInfo>,
    screens: Vec<CaptureDeviceInfo>,
}

impl CaptureManager {
    /// The registered cameras, in the order of their registration.
    pub closed spec fn camera_list(&self) -> Seq<DeviceModel> {
        device_models(self.cameras@)
    }

    /// The registered screens, in the order of their registration.
    pub closed spec fn screen_list(&self) -> Seq<DeviceModel> {
        device_models(self.screens@)
    }

    pub fn new() -> (m: Self)
        ensures
            m.camera_list() == Seq::<DeviceModel>::empty(),
            m.screen_list() == Seq::<DeviceModel>::empty(),
    {
        let m = Self { cameras: Vec::new(), screens: Vec::new() };
        proof {
            assert(m.camera_list() =~= Seq::empty());
            assert(m.screen_list() =~= Seq::empty());
        }
        m
    }

    /// Registers a camera.
    pub fn register_camera(&mut self, id: String, name: String, width: u32, height: u32)
        ensures
            final(self).screen_list() == old(self).screen_list(),
            final(self).camera_list() == old(self).camera_list().push(
                DeviceModel {
                    id: id@,
                    name: name@,
                    device_type: CaptureDeviceType::Camera,
                    native_width: width,
                    native_height: height,
                },
            ),
    {
        let ghost before = self.cameras@;
        let d = CaptureDeviceInfo {
            id,
            name,
            device_type: CaptureDeviceType::Camera,
            native_width: width,
            native_height: height,
        };
        self.cameras.push(d);
        proof {
            assert(device_models(self.cameras@) =~= device_models(before).push(d@));
        }
    }

    /// Registers a screen.
    pub fn register_screen(&mut self, id: String, name: String, width: u32, height: u32)
        ensures
            final(self).camera_list() == old(self).camera_list(),
            final(self).screen_list() == old(self).screen_list().push(
                DeviceModel {
                    id: id@,
                    name: name@,
                    device_type: CaptureDeviceType::Screen,
                    native_width: width,
                    native_height: height,
                },
            ),
    {
        let ghost before = self.screens@;
        let d = CaptureDeviceInfo {
            id,
            name,
            device_type: CaptureDeviceType::Screen,
            native_width: width,
            native_height: height,
        };
        self.screens.push(d);
        proof {
            assert(device_models(self.screens@) =~= device_models(before).push(d@));
        }
    }

    /// The registered cameras.
    pub fn cameras(&self) -> (c: &[CaptureDeviceInfo])
        ensures
            device_models(c@) == self.camera_list(),
    {
        self.cameras.as_slice()
    }

    /// The registered screens.
    pub fn screens(&self) -> (s: &[CaptureDeviceInfo])
        ensures
            device_models(s@) == self.screen_list(),
    {
        self.screens.as_slice()
    }

    /// A source for the first device of `devices` with id `id`.
    fn capturer_for(devices: &Vec<CaptureDeviceInfo>, id: &str, device_type: CaptureDeviceType) -> (r: Option<
        Capturer,
    >)
        ensures
            match r {
                Some(c) => {
                    let i = device_position(device_models(devices@), id@);
                    &&& i < devices@.len()
                    &&& c.device() == (DeviceModel { device_type, ..device_models(devices@)[i] })
                    &&& c.spec_format() == (VideoFormat {
                        pixel_format: PixelFormat::Rgba,
                        width: device_models(devices@)[i].native_width,
                        height: device_models(devices@)[i].native_height,
                    })
                    &&& !c.capturing()
                    &&& c.newest() is None
                },
                None => device_position(device_models(devices@), id@) == devices@.len(),
            },
    {
        let mut i: usize = 0;
        while i < devices.len()
            invariant
                0 <= i <= devices@.len(),
                forall|k: int| 0 <= k < i ==> device_models(devices@)[k].id != id@,
            decreases devices@.len() - i,
        {
            let d = &devices[i];
            if str_eq(d.id.as_str(), id) {
                proof {
                    lemma_device_position_is(device_models(devices@), id@, i as int);
                }
                return Some(
                    Capturer::for_device(
                        device_type,
                        d.id.clone(),
                        d.name.clone(),
                        d.native_width,
                        d.native_height,
                    ),
                );
            }
            i = i + 1;
        }
        proof {
            lemma_device_position_is(device_models(devices@), id@, devices@.len() as int);
        }
        None
    }

    /// A source for the registered camera `device_id`.
    pub fn create_camera_capturer(&self, device_id: &str) -> (r: Option<CameraCapturer>)
        ensures
            r is Some <==> device_position(self.camera_list(), device_id@) < self.camera_list().len(),
            r matches Some(c) ==> c.device() == (DeviceModel {
                device_type: CaptureDeviceType::Camera,
                ..self.camera_list()[device_position(self.camera_list(), device_id@)]
            }) && !c.capturing() && c.newest() is None,
    {
        Self::capturer_for(&self.cameras, device_id, CaptureDeviceType::Camera)
    }

    /// A source for the registered screen `screen_id`.
    pub fn create_screen_capturer(&self, screen_id: &str) -> (r: Option<ScreenCapturer>)
        ensures
            r is Some <==> device_position(self.screen_list(), screen_id@) < self.screen_list().len(),
            r matches Some(c) ==> c.device() == (DeviceModel {
                device_type: CaptureDeviceType::Screen,
                ..self.screen_list()[device_position(self.screen_list(), screen_id@)]
            }) && !c.capturing() && c.newest() is None,
    {
        Self::capturer_for(&self.screens, screen_id, CaptureDeviceType::Screen)
    }

    /// A source of test pictures that starts at the clock's reading.
    pub fn create_test_source(&self, width: u32, height: u32, fps: u32, pattern: TestPattern) -> (s: TestPatternSource)
        ensures
            s.spec_format() == (VideoFormat { pixel_format: PixelFormat::Rgba, width, height }),
            s.frame_count() == 0,
            s.fps() == fps,
            s.pattern() == pattern,
    {
        TestPatternSource::new(width, height, fps, pattern)
    }
}

impl Default for CaptureManager {
    fn default() -> (m: Self)
        ensures
            m.camera_list() == Seq::<DeviceModel>::empty(),
            m.screen_list() == Seq::<DeviceModel>::empty(),
    {
        Self::new()
    }
}

} // verus!
