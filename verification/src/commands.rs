//! The JSON commands that the front end draws from, one function per drawing
//! method of the GUI handle: each returns the text that the handle sends.

use vstd::prelude::*;

use crate::decimal::{decimal, decimal_digits};
use crate::json::{
    array_text, bool_text, item_texts, join_with_commas, json_object, lemma_append_member, quoted, Jsonify,
    ToJsonText,
};

verus! {

/// How a Chart.js dataset is filled.
#[derive(Clone, Copy)]
pub enum FillStyle {
    False,
    Origin,
    Start,
    End,
}

/// A Chart.js dataset. `line_tension` holds the decimal text of the line
/// tension, which is written as it is.
pub struct Dataset<V> {
    pub label: String,
    pub data: Vec<V>,
    pub fill: FillStyle,
    pub line_tension: String,
    pub border_color: String,
    pub background_color: Option<String>,
}

/// A Chart.js chart: its type (such as `line`), the labels of its x axis and
/// its datasets.
pub struct Chart<T, V> {
    pub type_: String,
    pub labels: Vec<T>,
    pub datasets: Vec<Dataset<V>>,
}

/// Where an image comes from.
#[derive(Clone, Copy)]
pub enum ImageType {
    Static,
}

/// The part of the source image that is drawn.
pub struct ImageCrop {
    pub sx: u32,
    pub sy: u32,
    pub sw: u32,
    pub sh: u32,
}

/// The size an image is drawn at, and the part of it that is drawn.
pub struct ImageResize {
    pub w: u32,
    pub h: u32,
    pub crop: Option<ImageCrop>,
}

/// An image drawn at `(x, y)` from the URL `source`.
pub struct Image {
    pub type_: ImageType,
    pub source: String,
    pub x: i32,
    pub y: i32,
    pub resize: Option<ImageResize>,
}

/// A (label, value text) member of a command.
pub type Field = (Seq<char>, Seq<char>);

/// The member `"type":"kind"` that every command starts with.
pub open spec fn type_field(kind: Seq<char>) -> Field {
    ("type"@, quoted(kind))
}

/// The members of the command that draws `img`: its source and position, then
/// its size when it is resized, then the cropped part when it is cropped.
pub open spec fn image_fields(img: Image) -> Seq<Field> {
    let base = seq![
        type_field("img"@),
        ("src"@, quoted(img.source@)),
        ("x"@, decimal(img.x as int)),
        ("y"@, decimal(img.y as int)),
    ];
    match img.resize {
        None => base,
        Some(resize) => {
            let sized = base + seq![
                ("w"@, decimal_digits(resize.w as nat)),
                ("h"@, decimal_digits(resize.h as nat)),
                ("resize"@, bool_text(true)),
            ];
            match resize.crop {
                None => sized,
                Some(crop) => sized + seq![
                    ("sx"@, decimal_digits(crop.sx as nat)),
                    ("sy"@, decimal_digits(crop.sy as nat)),
                    ("sw"@, decimal_digits(crop.sw as nat)),
                    ("sh"@, decimal_digits(crop.sh as nat)),
                    ("crop"@, bool_text(true)),
                ],
            }
        },
    }
}

/// The command that draws `img`.
pub fn image_command(img: &Image) -> (cmd: String)
    ensures
        cmd@ == json_object(image_fields(*img)),
{
    let ghost mut fields: Seq<Field> = Seq::empty();
    let mut buf = String::new_json();
    buf.append_str("type", "img");
    proof {
        lemma_append_member(fields, "type"@, quoted("img"@));
        fields = fields.push(type_field("img"@));
    }
    buf.append_str("src", img.source.as_str());
    proof {
        lemma_append_member(fields, "src"@, quoted(img.source@));
        fields = fields.push(("src"@, quoted(img.source@)));
    }
    buf.append_number("x", &img.x);
    proof {
        lemma_append_member(fields, "x"@, decimal(img.x as int));
        fields = fields.push(("x"@, decimal(img.x as int)));
    }
    buf.append_number("y", &img.y);
    proof {
        lemma_append_member(fields, "y"@, decimal(img.y as int));
        fields = fields.push(("y"@, decimal(img.y as int)));
    }
    if let Some(resize) = &img.resize {
        buf.append_number("w", &resize.w);
        proof {
            lemma_append_member(fields, "w"@, decimal_digits(resize.w as nat));
            fields = fields.push(("w"@, decimal_digits(resize.w as nat)));
        }
        buf.append_number("h", &resize.h);
        proof {
            lemma_append_member(fields, "h"@, decimal_digits(resize.h as nat));
            fields = fields.push(("h"@, decimal_digits(resize.h as nat)));
        }
        buf.append_bool("resize", true);
        proof {
            lemma_append_member(fields, "resize"@, bool_text(true));
            fields = fields.push(("resize"@, bool_text(true)));
        }
        if let Some(crop) = &resize.crop {
            buf.append_number("sx", &crop.sx);
            proof {
                lemma_append_member(fields, "sx"@, decimal_digits(crop.sx as nat));
                fields = fields.push(("sx"@, decimal_digits(crop.sx as nat)));
            }
            buf.append_number("sy", &crop.sy);
            proof {
                lemma_append_member(fields, "sy"@, decimal_digits(crop.sy as nat));
                fields = fields.push(("sy"@, decimal_digits(crop.sy as nat)));
            }
            buf.append_number("sw", &crop.sw);
            proof {
                lemma_append_member(fields, "sw"@, decimal_digits(crop.sw as nat));
                fields = fields.push(("sw"@, decimal_digits(crop.sw as nat)));
            }
            buf.append_number("sh", &crop.sh);
            proof {
                lemma_append_member(fields, "sh"@, decimal_digits(crop.sh as nat));
                fields = fields.push(("sh"@, decimal_digits(crop.sh as nat)));
            }
            buf.append_bool("crop", true);
            proof {
                lemma_append_member(fields, "crop"@, bool_text(true));
                fields = fields.push(("crop"@, bool_text(true)));
            }
        }
    }
    proof {
        assert(fields =~= image_fields(*img));
    }
    buf
}

/// The word that `fill` is written as.
pub open spec fn fill_word(fill: FillStyle) -> Seq<char> {
    match fill {
        FillStyle::False => "false"@,
        FillStyle::Origin => "origin"@,
        FillStyle::Start => "start"@,
        FillStyle::End => "end"@,
    }
}

/// The members of a dataset's object: label, data, fill, border color, the
/// background color when there is one, and the line tension.
pub open spec fn dataset_fields<V: ToJsonText>(d: Dataset<V>) -> Seq<Field> {
    let head = seq![
        ("label"@, quoted(d.label@)),
        ("data"@, array_text(item_texts(d.data@))),
        ("fill"@, quoted(fill_word(d.fill))),
        ("borderColor"@, quoted(d.border_color@)),
    ];
    let colored = match d.background_color {
        None => head,
        Some(bg) => head.push(("backgroundColor"@, quoted(bg@))),
    };
    colored.push(("lineTension"@, d.line_tension@))
}

/// The objects of the datasets, in order.
pub open spec fn dataset_objects<V: ToJsonText>(datasets: Seq<Dataset<V>>) -> Seq<Seq<char>> {
    datasets.map_values(|d: Dataset<V>| json_object(dataset_fields(d)))
}

/// The object that Chart.js draws `chart` from: its type, its data (labels and
/// datasets) and empty options.
pub open spec fn chart_object<T: ToJsonText, V: ToJsonText>(chart: Chart<T, V>) -> Seq<char> {
    json_object(
        seq![
            ("type"@, quoted(chart.type_@)),
            (
                "data"@,
                json_object(
                    seq![
                        ("labels"@, array_text(item_texts(chart.labels@))),
                        ("datasets"@, array_text(dataset_objects(chart.datasets@))),
                    ],
                ),
            ),
            ("options"@, json_object(Seq::empty())),
        ],
    )
}

fn dataset_json<V: ToJsonText>(dataset: &Dataset<V>) -> (json: String)
    ensures
        json@ == json_object(dataset_fields(*dataset)),
{
    let ghost mut fields: Seq<Field> = Seq::empty();
    let mut json = String::new_json();
    json.append_str("label", dataset.label.as_str());
    proof {
        lemma_append_member(fields, "label"@, quoted(dataset.label@));
        fields = fields.push(("label"@, quoted(dataset.label@)));
    }
    json.append_vec("data", &dataset.data);
    proof {
        lemma_append_member(fields, "data"@, array_text(item_texts(dataset.data@)));
        fields = fields.push(("data"@, array_text(item_texts(dataset.data@))));
    }
    match &dataset.fill {
        FillStyle::False => json.append_str("fill", "false"),
        FillStyle::Origin => json.append_str("fill", "origin"),
        FillStyle::Start => json.append_str("fill", "start"),
        FillStyle::End => json.append_str("fill", "end"),
    };
    proof {
        lemma_append_member(fields, "fill"@, quoted(fill_word(dataset.fill)));
        fields = fields.push(("fill"@, quoted(fill_word(dataset.fill))));
    }
    json.append_str("borderColor", dataset.border_color.as_str());
    proof {
        lemma_append_member(fields, "borderColor"@, quoted(dataset.border_color@));
        fields = fields.push(("borderColor"@, quoted(dataset.border_color@)));
    }
    if let Some(background_color) = &dataset.background_color {
        json.append_str("backgroundColor", background_color.as_str());
        proof {
            lemma_append_member(fields, "backgroundColor"@, quoted(background_color@));
            fields = fields.push(("backgroundColor"@, quoted(background_color@)));
        }
    }
    json.append_number("lineTension", &dataset.line_tension);
    proof {
        lemma_append_member(fields, "lineTension"@, dataset.line_tension@);
        fields = fields.push(("lineTension"@, dataset.line_tension@));
        assert(fields =~= dataset_fields(*dataset));
    }
    json
}

/// The command that draws `chart` with Chart.js: `{"type":"chart","data":..}`
/// around the chart's object.
pub fn chart_command<T: ToJsonText, V: ToJsonText>(chart: &Chart<T, V>) -> (cmd: String)
    ensures
        cmd@ == json_object(seq![type_field("chart"@), ("data"@, chart_object(*chart))]),
{
    let mut datasets_vec_json: Vec<String> = Vec::new();
    for i in 0..chart.datasets.len()
        invariant
            datasets_vec_json@.len() == i,
            forall|j: int|
                0 <= j < i ==> #[trigger] datasets_vec_json@[j]@ == json_object(
                    dataset_fields(chart.datasets@[j]),
                ),
    {
        let dataset_json = dataset_json(&chart.datasets[i]);
        datasets_vec_json.push(dataset_json);
    }
    proof {
        assert(item_texts(datasets_vec_json@) =~= dataset_objects(chart.datasets@));
    }
    let ghost mut data_fields: Seq<Field> = Seq::empty();
    let mut data_json = String::new_json();
    data_json.append_vec("labels", &chart.labels);
    proof {
        lemma_append_member(data_fields, "labels"@, array_text(item_texts(chart.labels@)));
        data_fields = data_fields.push(("labels"@, array_text(item_texts(chart.labels@))));
    }
    data_json.append_vec("datasets", &datasets_vec_json);
    proof {
        let t = array_text(dataset_objects(chart.datasets@));
        lemma_append_member(data_fields, "datasets"@, t);
        data_fields = data_fields.push(("datasets"@, t));
    }
    proof {
        assert(data_fields =~= seq![
            ("labels"@, array_text(item_texts(chart.labels@))),
            ("datasets"@, array_text(dataset_objects(chart.datasets@))),
        ]);
    }
    let ghost mut chart_fields: Seq<Field> = Seq::empty();
    let mut chart_json = String::new_json();
    chart_json.append_str("type", chart.type_.as_str());
    proof {
        lemma_append_member(chart_fields, "type"@, quoted(chart.type_@));
        chart_fields = chart_fields.push(("type"@, quoted(chart.type_@)));
    }
    chart_json.append_json("data", &data_json);
    proof {
        lemma_append_member(chart_fields, "data"@, data_json@);
        chart_fields = chart_fields.push(("data"@, data_json@));
    }
    let options = String::new_json();
    chart_json.append_json("options", &options);
    proof {
        lemma_append_member(chart_fields, "options"@, options@);
        chart_fields = chart_fields.push(("options"@, options@));
        assert(chart_fields =~= seq![
            ("type"@, quoted(chart.type_@)),
            (
                "data"@,
                json_object(
                    seq![
                        ("labels"@, array_text(item_texts(chart.labels@))),
                        ("datasets"@, array_text(dataset_objects(chart.datasets@))),
                    ],
                ),
            ),
            ("options"@, json_object(Seq::empty())),
        ]);
    }
    let ghost mut fields: Seq<Field> = Seq::empty();
    let mut json = String::new_json();
    json.append_str("type", "chart");
    proof {
        lemma_append_member(fields, "type"@, quoted("chart"@));
        fields = fields.push(type_field("chart"@));
    }
    json.append_json("data", &chart_json);
    proof {
        lemma_append_member(fields, "data"@, chart_json@);
        fields = fields.push(("data"@, chart_json@));
        assert(fields =~= seq![type_field("chart"@), ("data"@, chart_object(*chart))]);
    }
    json
}

/// The command that draws the rectangle at `(x, y)` of width `w` and height `h`.
pub fn rect_command(x: i32, y: i32, w: i32, h: i32) -> (cmd: String)
    ensures
        cmd@ == json_object(
            seq![
                type_field("rec"@),
                ("x"@, decimal(x as int)),
                ("y"@, decimal(y as int)),
                ("w"@, decimal(w as int)),
                ("h"@, decimal(h as int)),
            ],
        ),
{
    let ghost mut fields: Seq<Field> = Seq::empty();
    let mut buf = String::new_json();
    buf.append_str("type", "rec");
    proof {
        lemma_append_member(fields, "type"@, quoted("rec"@));
        fields = fields.push(type_field("rec"@));
    }
    buf.append_number("x", &x);
    proof {
        lemma_append_member(fields, "x"@, decimal(x as int));
        fields = fields.push(("x"@, decimal(x as int)));
    }
    buf.append_number("y", &y);
    proof {
        lemma_append_member(fields, "y"@, decimal(y as int));
        fields = fields.push(("y"@, decimal(y as int)));
    }
    buf.append_number("w", &w);
    proof {
        lemma_append_member(fields, "w"@, decimal(w as int));
        fields = fields.push(("w"@, decimal(w as int)));
    }
    buf.append_number("h", &h);
    proof {
        lemma_append_member(fields, "h"@, decimal(h as int));
        fields = fields.push(("h"@, decimal(h as int)));
        assert(fields =~= seq![
            type_field("rec"@),
            ("x"@, decimal(x as int)),
            ("y"@, decimal(y as int)),
            ("w"@, decimal(w as int)),
            ("h"@, decimal(h as int)),
        ]);
    }
    buf
}

/// The command that draws the line from `(x1, y1)` to `(x2, y2)`.
pub fn line_command(x1: i32, y1: i32, x2: i32, y2: i32) -> (cmd: String)
    ensures
        cmd@ == json_object(
            seq![
                type_field("line"@),
                ("x1"@, decimal(x1 as int)),
                ("y1"@, decimal(y1 as int)),
                ("x2"@, decimal(x2 as int)),
                ("y2"@, decimal(y2 as int)),
            ],
        ),
{
    let ghost mut fields: Seq<Field> = Seq::empty();
    let mut buf = String::new_json();
    buf.append_str("type", "line");
    proof {
        lemma_append_member(fields, "type"@, quoted("line"@));
        fields = fields.push(type_field("line"@));
    }
    buf.append_number("x1", &x1);
    proof {
        lemma_append_member(fields, "x1"@, decimal(x1 as int));
        fields = fields.push(("x1"@, decimal(x1 as int)));
    }
    buf.append_number("y1", &y1);
    proof {
        lemma_append_member(fields, "y1"@, decimal(y1 as int));
        fields = fields.push(("y1"@, decimal(y1 as int)));
    }
    buf.append_number("x2", &x2);
    proof {
        lemma_append_member(fields, "x2"@, decimal(x2 as int));
        fields = fields.push(("x2"@, decimal(x2 as int)));
    }
    buf.append_number("y2", &y2);
    proof {
        lemma_append_member(fields, "y2"@, decimal(y2 as int));
        fields = fields.push(("y2"@, decimal(y2 as int)));
        assert(fields =~= seq![
            type_field("line"@),
            ("x1"@, decimal(x1 as int)),
            ("y1"@, decimal(y1 as int)),
            ("x2"@, decimal(x2 as int)),
            ("y2"@, decimal(y2 as int)),
        ]);
    }
    buf
}

/// The command that draws the arc of radius `r` around `(x, y)` between two
/// angles. The angles are given as the decimal texts they are written as.
pub fn arc_command(x: i32, y: i32, r: u32, start_angle: &str, end_angle: &str) -> (cmd: String)
    ensures
        cmd@ == json_object(
            seq![
                type_field("arc"@),
                ("x"@, decimal(x as int)),
                ("y"@, decimal(y as int)),
                ("r"@, decimal_digits(r as nat)),
                ("s"@, start_angle@),
                ("e"@, end_angle@),
            ],
        ),
{
    let ghost mut fields: Seq<Field> = Seq::empty();
    let mut buf = String::new_json();
    buf.append_str("type", "arc");
    proof {
        lemma_append_member(fields, "type"@, quoted("arc"@));
        fields = fields.push(type_field("arc"@));
    }
    buf.append_number("x", &x);
    proof {
        lemma_append_member(fields, "x"@, decimal(x as int));
        fields = fields.push(("x"@, decimal(x as int)));
    }
    buf.append_number("y", &y);
    proof {
        lemma_append_member(fields, "y"@, decimal(y as int));
        fields = fields.push(("y"@, decimal(y as int)));
    }
    buf.append_number("r", &r);
    proof {
        lemma_append_member(fields, "r"@, decimal_digits(r as nat));
        fields = fields.push(("r"@, decimal_digits(r as nat)));
    }
    buf.append_number("s", &start_angle);
    proof {
        lemma_append_member(fields, "s"@, start_angle@);
        fields = fields.push(("s"@, start_angle@));
    }
    buf.append_number("e", &end_angle);
    proof {
        lemma_append_member(fields, "e"@, end_angle@);
        fields = fields.push(("e"@, end_angle@));
        assert(fields =~= seq![
            type_field("arc"@),
            ("x"@, decimal(x as int)),
            ("y"@, decimal(y as int)),
            ("r"@, decimal_digits(r as nat)),
            ("s"@, start_angle@),
            ("e"@, end_angle@),
        ]);
    }
    buf
}

/// The command that writes `text` at `(x, y)` in the CSS font `font`.
pub fn text_command(x: i32, y: i32, text: &str, font: &str) -> (cmd: String)
    ensures
        cmd@ == json_object(
            seq![
                type_field("text"@),
                ("x"@, decimal(x as int)),
                ("y"@, decimal(y as int)),
                ("text"@, quoted(text@)),
                ("font"@, quoted(font@)),
            ],
        ),
{
    let ghost mut fields: Seq<Field> = Seq::empty();
    let mut buf = String::new_json();
    buf.append_str("type", "text");
    proof {
        lemma_append_member(fields, "type"@, quoted("text"@));
        fields = fields.push(type_field("text"@));
    }
    buf.append_number("x", &x);
    proof {
        lemma_append_member(fields, "x"@, decimal(x as int));
        fields = fields.push(("x"@, decimal(x as int)));
    }
    buf.append_number("y", &y);
    proof {
        lemma_append_member(fields, "y"@, decimal(y as int));
        fields = fields.push(("y"@, decimal(y as int)));
    }
    buf.append_str("text", text);
    proof {
        lemma_append_member(fields, "text"@, quoted(text@));
        fields = fields.push(("text"@, quoted(text@)));
    }
    buf.append_str("font", font);
    proof {
        lemma_append_member(fields, "font"@, quoted(font@));
        fields = fields.push(("font"@, quoted(font@)));
        assert(fields =~= seq![
            type_field("text"@),
            ("x"@, decimal(x as int)),
            ("y"@, decimal(y as int)),
            ("text"@, quoted(text@)),
            ("font"@, quoted(font@)),
        ]);
    }
    buf
}

/// The command that sets the fill color to the CSS color `color`.
pub fn fill_style_command(color: &str) -> (cmd: String)
    ensures
        cmd@ == json_object(seq![type_field("color"@), ("color"@, quoted(color@))]),
{
    let mut buf = String::new_json();
    buf.append_str("type", "color");
    proof {
        lemma_append_member(Seq::empty(), "type"@, quoted("color"@));
    }
    buf.append_str("color", color);
    proof {
        lemma_append_member(seq![type_field("color"@)], "color"@, quoted(color@));
        assert(seq![type_field("color"@)] =~= Seq::<Field>::empty().push(type_field("color"@)));
        assert(seq![type_field("color"@), ("color"@, quoted(color@))] =~= seq![
            type_field("color"@),
        ].push(("color"@, quoted(color@))));
    }
    buf
}

/// The command that clears the canvas.
pub fn clear_command() -> (cmd: String)
    ensures
        cmd@ == json_object(seq![type_field("clear"@)]),
{
    let mut buf = String::new_json();
    buf.append_str("type", "clear");
    proof {
        lemma_append_member(Seq::empty(), "type"@, quoted("clear"@));
        assert(seq![type_field("clear"@)] =~= Seq::<Field>::empty().push(type_field("clear"@)));
    }
    buf
}

/// The command that shows `text` in an alert box.
pub fn popup_command(text: &str) -> (cmd: String)
    ensures
        cmd@ == json_object(seq![type_field("alert"@), ("text"@, quoted(text@))]),
{
    let mut buf = String::new_json();
    buf.append_str("type", "alert");
    proof {
        lemma_append_member(Seq::empty(), "type"@, quoted("alert"@));
    }
    buf.append_str("text", text);
    proof {
        lemma_append_member(seq![type_field("alert"@)], "text"@, quoted(text@));
        assert(seq![type_field("alert"@)] =~= Seq::<Field>::empty().push(type_field("alert"@)));
        assert(seq![type_field("alert"@), ("text"@, quoted(text@))] =~= seq![
            type_field("alert"@),
        ].push(("text"@, quoted(text@))));
    }
    buf
}

/// The members of the image command, stated one by one: the type, the
/// source, then `x` and `y` as the signed decimal texts of the position; when
/// the image is resized, `w` and `h` as the decimal texts of the size and
/// `"resize":true`; when it is also cropped, `sx`, `sy`, `sw`, `sh` and
/// `"crop":true`. Nothing else.
pub proof fn lemma_image_members(img: Image)
    ensures
        image_fields(img).len() == match img.resize {
            None => 4int,
            Some(r) => match r.crop {
                None => 7int,
                Some(_) => 12int,
            },
        },
        image_fields(img)[0] == ("type"@, quoted("img"@)),
        image_fields(img)[1] == ("src"@, quoted(img.source@)),
        image_fields(img)[2] == ("x"@, decimal(img.x as int)),
        image_fields(img)[3] == ("y"@, decimal(img.y as int)),
        img.resize matches Some(r) ==> {
            &&& image_fields(img)[4] == ("w"@, decimal(r.w as int))
            &&& image_fields(img)[5] == ("h"@, decimal(r.h as int))
            &&& image_fields(img)[6] == ("resize"@, "true"@)
        },
        img.resize matches Some(r) ==> r.crop matches Some(c) ==> {
            &&& image_fields(img)[7] == ("sx"@, decimal(c.sx as int))
            &&& image_fields(img)[8] == ("sy"@, decimal(c.sy as int))
            &&& image_fields(img)[9] == ("sw"@, decimal(c.sw as int))
            &&& image_fields(img)[10] == ("sh"@, decimal(c.sh as int))
            &&& image_fields(img)[11] == ("crop"@, "true"@)
        },
{
    reveal_strlit("true");
    assert(bool_text(true) =~= "true"@);
}

/// The members of a dataset's object, stated one by one: label, data, the fill
/// word (`false`, `origin`, `start` or `end`), the border color, then a
/// `backgroundColor` member exactly when the dataset has a background color,
/// whatever its fill, and last the line tension.
pub proof fn lemma_dataset_members<V: ToJsonText>(d: Dataset<V>)
    ensures
        dataset_fields(d)[0] == ("label"@, quoted(d.label@)),
        dataset_fields(d)[1] == ("data"@, array_text(item_texts(d.data@))),
        dataset_fields(d)[2] == ("fill"@, quoted(
            match d.fill {
                FillStyle::False => "false"@,
                FillStyle::Origin => "origin"@,
                FillStyle::Start => "start"@,
                FillStyle::End => "end"@,
            },
        )),
        dataset_fields(d)[3] == ("borderColor"@, quoted(d.border_color@)),
        dataset_fields(d).len() >= 5,
        dataset_fields(d).last() == ("lineTension"@, d.line_tension@),
        d.background_color matches Some(c) ==> {
            &&& dataset_fields(d).len() == 6
            &&& dataset_fields(d)[4] == ("backgroundColor"@, quoted(c@))
        },
        d.background_color is None ==> {
            &&& dataset_fields(d).len() == 5
            &&& forall|i: int|
                0 <= i < 5 ==> (#[trigger] dataset_fields(d)[i]).0 != "backgroundColor"@
        },
{
    reveal_strlit("label");
    reveal_strlit("data");
    reveal_strlit("fill");
    reveal_strlit("borderColor");
    reveal_strlit("lineTension");
    reveal_strlit("backgroundColor");
    let f = dataset_fields(d);
    if d.background_color is None {
        assert forall|i: int| 0 <= i < 5 implies (#[trigger] f[i]).0 != "backgroundColor"@ by {
            assert(f[i].0.len() != "backgroundColor"@.len());
        }
    }
}

/// The object of a chart, stated member by member: its type as a string,
/// then its data (the labels as a JSON array holding the text of each label,
/// in order, and the datasets as a JSON array holding the object of each
/// dataset, in order), then empty options `{}`.
pub proof fn lemma_chart_members<T: ToJsonText, V: ToJsonText>(chart: Chart<T, V>)
    ensures
        chart_object(chart) == json_object(
            seq![
                ("type"@, quoted(chart.type_@)),
                (
                    "data"@,
                    json_object(
                        seq![
                            ("labels"@, seq!['['] + join_with_commas(item_texts(chart.labels@)) + seq![']']),
                            (
                                "datasets"@,
                                seq!['['] + join_with_commas(dataset_objects(chart.datasets@)) + seq![']'],
                            ),
                        ],
                    ),
                ),
                ("options"@, "{}"@),
            ],
        ),
        item_texts(chart.labels@).len() == chart.labels@.len(),
        forall|i: int|
            0 <= i < chart.labels@.len() ==> #[trigger] item_texts(chart.labels@)[i]
                == chart.labels@[i].json_text(),
        dataset_objects(chart.datasets@).len() == chart.datasets@.len(),
        forall|i: int|
            0 <= i < chart.datasets@.len() ==> #[trigger] dataset_objects(chart.datasets@)[i]
                == json_object(dataset_fields(chart.datasets@[i])),
{
    reveal_strlit("{}");
    assert(json_object(Seq::empty()) =~= "{}"@);
}

} // verus!
