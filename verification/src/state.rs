use vstd::prelude::*;

verus! {

/// How the width of a brush stroke varies along the stroke.
#[derive(Clone, Copy, PartialEq, Eq, Debug, Structural)]
pub enum DynamicBrushWidthMode {
    /// Constant width.
    Disabled,
    /// The stroke thins towards its end, like a brush tip.
    BrushTip,
    /// The stroke thins as the pointer speeds up.
    SpeedBased,
}

impl Default for DynamicBrushWidthMode {
    fn default() -> (m: Self)
        ensures
            m == DynamicBrushWidthMode::Disabled,
    {
        DynamicBrushWidthMode::Disabled
    }
}

/// The eight resize handles around a selected object.
#[derive(Clone, Copy, PartialEq, Eq, Debug, Structural)]
pub enum TransformHandle {
    TopLeft,
    Top,
    TopRight,
    Left,
    Right,
    BottomLeft,
    Bottom,
    BottomRight,
}

/// The tools of the canvas.
#[derive(Clone, Copy, PartialEq, Eq, Debug, Structural)]
pub enum CanvasTool {
    /// Overlay mode only: clicks reach the windows below.
    Passthrough,
    Select,
    Brush,
    View,
    ObjectEraser,
    PixelEraser,
    Insert,
    Settings,
}

impl Default for CanvasTool {
    fn default() -> (t: Self)
        ensures
            t == CanvasTool::Brush,
    {
        CanvasTool::Brush
    }
}

/// The tabs of the insert tool.
#[derive(Clone, Copy, PartialEq, Eq, Debug, Structural)]
pub enum InsertTab {
    Shape,
    Text,
    Image,
}

impl Default for InsertTab {
    fn default() -> (t: Self)
        ensures
            t == InsertTab::Shape,
    {
        InsertTab::Shape
    }
}

/// The shapes that can be inserted.
#[derive(Clone, Copy, PartialEq, Eq, Debug, Structural)]
pub enum CanvasShapeType {
    Line,
    Arrow,
    Rectangle,
    Triangle,
    Circle,
}

/// How the main window is shown.
#[derive(Clone, Copy, PartialEq, Eq, Debug, Structural)]
pub enum WindowMode {
    Windowed,
    ExclusiveFullscreen,
    BorderlessFullscreen,
}

impl Default for WindowMode {
    fn default() -> (m: Self)
        ensures
            m == WindowMode::BorderlessFullscreen,
    {
        WindowMode::BorderlessFullscreen
    }
}

/// The colour theme of the interface.
#[derive(Clone, Copy, PartialEq, Eq, Debug, Structural)]
pub enum ThemeMode {
    /// Follow the desktop's dark or light setting.
    System,
    Light,
    Dark,
}

impl ThemeMode {
    /// Whether the interface is dark in this mode: the desktop's answer
    /// `system_dark` for `System` (dark when it is unknown), else the mode
    /// itself.
    pub fn is_dark(self, system_dark: Option<bool>) -> (b: bool)
        ensures
            b == (match self {
                ThemeMode::System => match system_dark {
                    Some(d) => d,
                    None => true,
                },
                ThemeMode::Light => false,
                ThemeMode::Dark => true,
            }),
    {
        match self {
            ThemeMode::System => match system_dark {
                Some(d) => d,
                None => true,
            },
            ThemeMode::Light => false,
            ThemeMode::Dark => true,
        }
    }
}

impl Default for ThemeMode {
    fn default() -> (m: Self)
        ensures
            m == ThemeMode::Dark,
    {
        ThemeMode::Dark
    }
}

/// Whether the renderer favours speed or low resource use.
#[derive(Clone, Copy, PartialEq, Eq, Debug, Structural)]
pub enum OptimizationPolicy {
    Performance,
    ResourceUsage,
}

impl Default for OptimizationPolicy {
    fn default() -> (p: Self)
        ensures
            p == OptimizationPolicy::Performance,
    {
        OptimizationPolicy::Performance
    }
}

/// The graphics backend to render with.
#[derive(Clone, Copy, PartialEq, Eq, Debug, Structural)]
pub enum GraphicsApi {
    Auto,
    Vulkan,
    Dx12,
    Metal,
    WebGpu,
    Gl,
}

impl GraphicsApi {
    /// The default backend of a platform: DirectX 12 on Windows, where
    /// Vulkan stalls after a resize, and automatic choice elsewhere.
    pub fn platform_default(on_windows: bool) -> (api: Self)
        ensures
            api == (if on_windows { GraphicsApi::Dx12 } else { GraphicsApi::Auto }),
    {
        if on_windows {
            GraphicsApi::Dx12
        } else {
            GraphicsApi::Auto
        }
    }
}

/// Which objects a selection outline picks.
#[derive(Clone, Copy, PartialEq, Eq, Debug, Structural)]
pub enum MarqueeMatchMode {
    /// Objects whose bounding box meets the outline.
    Overlapping,
    /// Objects whose bounding box lies wholly inside the outline.
    Containing,
}

impl Default for MarqueeMatchMode {
    fn default() -> (m: Self)
        ensures
            m == MarqueeMatchMode::Overlapping,
    {
        MarqueeMatchMode::Overlapping
    }
}

} // verus!
