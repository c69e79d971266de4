//! Chart configuration and the textual pieces of chart output: axis
//! descriptions and the placeholder image shown when there is no data.
//! Drawing itself is a rendering concern outside the library.

use vstd::prelude::*;
use vstd::string::StringExecFns;
use crate::series::MetricType;
use crate::text::{dec_str, u64_to_string};

verus! {

/// An RGB color for one repository's series line.
#[derive(Debug, Clone, Copy, PartialEq, Eq, Structural)]
pub struct Color {
    pub r: u8,
    pub g: u8,
    pub b: u8,
}

/// Chart configuration options.
#[derive(Debug, Clone)]
pub struct ChartConfig {
    pub width: u32,
    pub height: u32,
    pub title: String,
    pub show_legend: bool,
    pub colors: Vec<Color>,
}

/// The default palette: blue, red, green, magenta, cyan, orange, purple,
/// pink.
pub open spec fn default_palette() -> Seq<Color> {
    seq![
        Color { r: 0, g: 0, b: 255 },
        Color { r: 255, g: 0, b: 0 },
        Color { r: 0, g: 255, b: 0 },
        Color { r: 255, g: 0, b: 255 },
        Color { r: 0, g: 255, b: 255 },
        Color { r: 255, g: 165, b: 0 },
        Color { r: 128, g: 0, b: 128 },
        Color { r: 255, g: 192, b: 203 },
    ]
}

impl Default for ChartConfig {
    /// An 800 x 400 chart with the generic title, a legend, and the
    /// default palette.
    fn default() -> (c: Self)
        ensures
            c.width == 800,
            c.height == 400,
            c.title@ == "Repository Star Metrics"@,
            c.show_legend,
            c.colors@ == default_palette(),
    {
        let mut colors: Vec<Color> = Vec::new();
        colors.push(Color { r: 0, g: 0, b: 255 });
        colors.push(Color { r: 255, g: 0, b: 0 });
        colors.push(Color { r: 0, g: 255, b: 0 });
        colors.push(Color { r: 255, g: 0, b: 255 });
        colors.push(Color { r: 0, g: 255, b: 255 });
        colors.push(Color { r: 255, g: 165, b: 0 });
        colors.push(Color { r: 128, g: 0, b: 128 });
        colors.push(Color { r: 255, g: 192, b: 203 });
        proof {
            assert(colors@ =~= default_palette());
        }
        ChartConfig {
            width: 800,
            height: 400,
            title: String::from_str("Repository Star Metrics"),
            show_legend: true,
            colors,
        }
    }
}

/// The Y-axis description of a metric.
pub open spec fn y_axis_description(metric_type: MetricType) -> Seq<char> {
    match metric_type {
        MetricType::Position => "Total Stars"@,
        MetricType::Speed => "Daily Stars"@,
        MetricType::Acceleration => "Star Acceleration"@,
    }
}

/// Gets the Y-axis description for a metric.
pub fn get_y_axis_description(metric_type: &MetricType) -> (r: String)
    ensures
        r@ == y_axis_description(*metric_type),
{
    match metric_type {
        MetricType::Position => String::from_str("Total Stars"),
        MetricType::Speed => String::from_str("Daily Stars"),
        MetricType::Acceleration => String::from_str("Star Acceleration"),
    }
}

/// The placeholder image shown when no data is available, as SVG text.
pub open spec fn empty_chart_svg(title: Seq<char>, width: int, height: int) -> Seq<char> {
    "<svg width=\""@ + dec_str(width) + "\" height=\""@ + dec_str(height)
        + "\" xmlns=\"http://www.w3.org/2000/svg\"><rect width=\"100%\" height=\"100%\" fill=\"white\"/><text x=\""@
        + dec_str(width / 2) + "\" y=\""@ + dec_str(height / 2)
        + "\" text-anchor=\"middle\" font-family=\"Arial\" font-size=\"18\" fill=\"#666666\">No data available for: "@
        + title + "</text></svg>"@
}

/// Generates the placeholder chart shown when no data is available.
pub fn generate_empty_chart(title: &str, width: u32, height: u32) -> (r: String)
    ensures
        r@ == empty_chart_svg(title@, width as int, height as int),
{
    let mut s = String::from_str("<svg width=\"");
    s.append(u64_to_string(width as u64).as_str());
    s.append("\" height=\"");
    s.append(u64_to_string(height as u64).as_str());
    s.append(
        "\" xmlns=\"http://www.w3.org/2000/svg\"><rect width=\"100%\" height=\"100%\" fill=\"white\"/><text x=\"",
    );
    s.append(u64_to_string((width / 2) as u64).as_str());
    s.append("\" y=\"");
    s.append(u64_to_string((height / 2) as u64).as_str());
    s.append(
        "\" text-anchor=\"middle\" font-family=\"Arial\" font-size=\"18\" fill=\"#666666\">No data available for: ",
    );
    s.append(title);
    s.append("</text></svg>");
    proof {
        assert(s@ =~= empty_chart_svg(title@, width as int, height as int));
    }
    s
}

} // verus!
