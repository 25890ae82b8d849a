//! The Tailwind CSS v4 tables that the sort order is made of, as text.
//!
//! `PROPERTY_ORDER` lists the CSS properties in their canonical order, one per
//! line; a property's position is its sort priority (lower sorts earlier).
//!
//! `CLASS_PROPERTIES` has one entry per line, `prefix:property,property,...`:
//! the class prefix (`p` for `p-4`, `flex` for `flex`, `inline-block` for
//! `inline-block`) and the CSS properties that the utility generates. Only
//! properties listed in `PROPERTY_ORDER` contribute to the sort key; all of
//! them count towards the number of declarations.
//!
//! `COLOR_PROPERTIES` gives, in the same form, the properties that an
//! ambiguous prefix (`border`, `ring`, ...) generates when its value is a colour.
use vstd::prelude::*;
use crate::text::{entries_start_plain, later_lines_start_plain};

verus! {

pub const PROPERTY_ORDER: &'static str = "\
container-type
pointer-events
visibility
position
inset
inset-inline
inset-block
inset-inline-start
inset-inline-end
top
right
bottom
left
isolation
z-index
order
grid-column
grid-column-start
grid-column-end
grid-row
grid-row-start
grid-row-end
float
clear
--tw-container-component
margin
margin-inline
margin-block
margin-inline-start
margin-inline-end
margin-top
margin-right
margin-bottom
margin-left
box-sizing
display
field-sizing
aspect-ratio
height
max-height
min-height
width
max-width
min-width
flex
flex-shrink
flex-grow
flex-basis
table-layout
caption-side
border-collapse
border-spacing
transform-origin
translate
--tw-translate-x
--tw-translate-y
--tw-translate-z
scale
--tw-scale-x
--tw-scale-y
--tw-scale-z
rotate
--tw-rotate-x
--tw-rotate-y
--tw-rotate-z
--tw-skew-x
--tw-skew-y
transform
animation
cursor
touch-action
--tw-pan-x
--tw-pan-y
--tw-pinch-zoom
resize
scroll-snap-type
--tw-scroll-snap-strictness
scroll-snap-align
scroll-snap-stop
scroll-margin
scroll-margin-inline
scroll-margin-block
scroll-margin-inline-start
scroll-margin-inline-end
scroll-margin-top
scroll-margin-right
scroll-margin-bottom
scroll-margin-left
scroll-padding
scroll-padding-inline
scroll-padding-block
scroll-padding-inline-start
scroll-padding-inline-end
scroll-padding-top
scroll-padding-right
scroll-padding-bottom
scroll-padding-left
list-style-position
list-style-type
list-style-image
appearance
columns
break-before
break-inside
break-after
grid-auto-columns
grid-auto-flow
grid-auto-rows
grid-template-columns
grid-template-rows
flex-direction
flex-wrap
place-content
place-items
align-content
align-items
justify-content
justify-items
gap
column-gap
row-gap
--tw-space-x-reverse
--tw-space-y-reverse
divide-x-width
divide-y-width
--tw-divide-y-reverse
divide-style
divide-color
place-self
align-self
justify-self
overflow
overflow-x
overflow-y
overscroll-behavior
overscroll-behavior-x
overscroll-behavior-y
scroll-behavior
border-radius
border-start-radius
border-end-radius
border-top-radius
border-right-radius
border-bottom-radius
border-left-radius
border-start-start-radius
border-start-end-radius
border-end-end-radius
border-end-start-radius
border-top-left-radius
border-top-right-radius
border-bottom-right-radius
border-bottom-left-radius
border-width
border-inline-width
border-block-width
border-inline-start-width
border-inline-end-width
border-top-width
border-right-width
border-bottom-width
border-left-width
border-style
border-inline-style
border-block-style
border-inline-start-style
border-inline-end-style
border-top-style
border-right-style
border-bottom-style
border-left-style
border-color
border-inline-color
border-block-color
border-inline-start-color
border-inline-end-color
border-top-color
border-right-color
border-bottom-color
border-left-color
background-color
background-image
--tw-gradient-position
--tw-gradient-stops
--tw-gradient-via-stops
--tw-gradient-from
--tw-gradient-from-position
--tw-gradient-via
--tw-gradient-via-position
--tw-gradient-to
--tw-gradient-to-position
mask-image
--tw-mask-top
--tw-mask-top-from-color
--tw-mask-top-from-position
--tw-mask-top-to-color
--tw-mask-top-to-position
--tw-mask-right
--tw-mask-right-from-color
--tw-mask-right-from-position
--tw-mask-right-to-color
--tw-mask-right-to-position
--tw-mask-bottom
--tw-mask-bottom-from-color
--tw-mask-bottom-from-position
--tw-mask-bottom-to-color
--tw-mask-bottom-to-position
--tw-mask-left
--tw-mask-left-from-color
--tw-mask-left-from-position
--tw-mask-left-to-color
--tw-mask-left-to-position
--tw-mask-linear
--tw-mask-linear-position
--tw-mask-linear-from-color
--tw-mask-linear-from-position
--tw-mask-linear-to-color
--tw-mask-linear-to-position
--tw-mask-radial
--tw-mask-radial-shape
--tw-mask-radial-size
--tw-mask-radial-position
--tw-mask-radial-from-color
--tw-mask-radial-from-position
--tw-mask-radial-to-color
--tw-mask-radial-to-position
--tw-mask-conic
--tw-mask-conic-position
--tw-mask-conic-from-color
--tw-mask-conic-from-position
--tw-mask-conic-to-color
--tw-mask-conic-to-position
box-decoration-break
background-size
background-attachment
background-clip
background-position
background-repeat
background-origin
mask-composite
mask-mode
mask-type
mask-size
mask-clip
mask-position
mask-repeat
mask-origin
fill
stroke
stroke-width
object-fit
object-position
padding
padding-inline
padding-block
padding-inline-start
padding-inline-end
padding-top
padding-right
padding-bottom
padding-left
text-align
text-indent
vertical-align
font-family
font-size
line-height
font-weight
letter-spacing
text-wrap
overflow-wrap
word-break
text-overflow
hyphens
white-space
color
text-transform
font-style
font-stretch
font-variant-numeric
text-decoration-line
text-decoration-color
text-decoration-style
text-decoration-thickness
text-underline-offset
-webkit-font-smoothing
placeholder-color
caret-color
accent-color
color-scheme
opacity
background-blend-mode
mix-blend-mode
box-shadow
--tw-shadow
--tw-shadow-color
--tw-ring-shadow
--tw-ring-color
--tw-inset-shadow
--tw-inset-shadow-color
--tw-inset-ring-shadow
--tw-inset-ring-color
--tw-ring-offset-width
--tw-ring-offset-color
outline
outline-width
outline-offset
outline-color
--tw-blur
--tw-brightness
--tw-contrast
--tw-drop-shadow
--tw-grayscale
--tw-hue-rotate
--tw-invert
--tw-saturate
--tw-sepia
filter
--tw-backdrop-blur
--tw-backdrop-brightness
--tw-backdrop-contrast
--tw-backdrop-grayscale
--tw-backdrop-hue-rotate
--tw-backdrop-invert
--tw-backdrop-opacity
--tw-backdrop-saturate
--tw-backdrop-sepia
backdrop-filter
transition-property
transition-behavior
transition-delay
transition-duration
transition-timing-function
will-change
contain
content
forced-color-adjust
";

pub const CLASS_PROPERTIES: &'static str = "\
@container:container-type
pointer-events-none:pointer-events
pointer-events-auto:pointer-events
visible:visibility
invisible:visibility
collapse:visibility
static:position
fixed:position
absolute:position
relative:position
sticky:position
inset:inset
inset-x:inset-inline
inset-y:inset-block
start:inset-inline-start
end:inset-inline-end
top:top
right:right
bottom:bottom
left:left
isolate:isolation
isolation-auto:isolation
z:z-index
order:order
col:grid-column
col-span:grid-column
col-start:grid-column-start
col-end:grid-column-end
row:grid-row
row-span:grid-row
row-start:grid-row-start
row-end:grid-row-end
float-start:float
float-end:float
float-right:float
float-left:float
float-none:float
clear-start:clear
clear-end:clear
clear-right:clear
clear-left:clear
clear-both:clear
clear-none:clear
container:--tw-container-component
m:margin
mx:margin-inline
my:margin-block
ms:margin-inline-start
me:margin-inline-end
mt:margin-top
mr:margin-right
mb:margin-bottom
ml:margin-left
box-border:box-sizing
box-content:box-sizing
block:display
inline-block:display
inline:display
flex:display
inline-flex:display
table:display
inline-table:display
table-caption:display
table-cell:display
table-column:display
table-column-group:display
table-footer-group:display
table-header-group:display
table-row-group:display
table-row:display
flow-root:display
grid:display
inline-grid:display
contents:display
list-item:display
hidden:display
line-clamp:display
field-sizing-content:field-sizing
field-sizing-fixed:field-sizing
aspect:aspect-ratio
size:width,height
h:height
max-h:max-height
min-h:min-height
w:width
max-w:max-width
min-w:min-width
flex-auto:flex
flex-initial:flex
flex-none:flex
flex-1:flex
flex-2:flex
flex-3:flex
flex-4:flex
flex-5:flex
flex-6:flex
flex-7:flex
flex-8:flex
flex-9:flex
flex-10:flex
flex-11:flex
flex-12:flex
shrink:flex-shrink
grow:flex-grow
basis:flex-basis
table-auto:table-layout
table-fixed:table-layout
caption-top:caption-side
caption-bottom:caption-side
border-collapse:border-collapse
border-separate:border-collapse
border-spacing:border-spacing
border-spacing-x:border-spacing
border-spacing-y:border-spacing
origin:transform-origin
translate:translate
translate-x:--tw-translate-x,translate
translate-y:--tw-translate-y,translate
translate-z:--tw-translate-z,translate
translate-3d:translate
scale:scale
scale-x:--tw-scale-x,scale
scale-y:--tw-scale-y,scale
scale-z:--tw-scale-z,scale
scale-3d:scale
scale-none:scale
rotate:rotate
rotate-none:rotate
rotate-x:--tw-rotate-x,transform
rotate-y:--tw-rotate-y,transform
rotate-z:--tw-rotate-z,transform
skew:--tw-skew-x,--tw-skew-y,transform
skew-x:--tw-skew-x,transform
skew-y:--tw-skew-y,transform
transform-cpu:transform
transform-gpu:transform
transform-none:transform
transform-flat:transform
transform-3d:transform
animate:animation
cursor:cursor
touch-auto:touch-action
touch-none:touch-action
touch-manipulation:touch-action
touch-pan-x:--tw-pan-x,touch-action
touch-pan-left:--tw-pan-x,touch-action
touch-pan-right:--tw-pan-x,touch-action
touch-pan-y:--tw-pan-y,touch-action
touch-pan-up:--tw-pan-y,touch-action
touch-pan-down:--tw-pan-y,touch-action
touch-pinch-zoom:--tw-pinch-zoom,touch-action
resize:resize
resize-none:resize
resize-x:resize
resize-y:resize
snap-none:scroll-snap-type
snap-x:scroll-snap-type
snap-y:scroll-snap-type
snap-both:scroll-snap-type
snap-mandatory:--tw-scroll-snap-strictness
snap-proximity:--tw-scroll-snap-strictness
snap-align-none:scroll-snap-align
snap-start:scroll-snap-align
snap-end:scroll-snap-align
snap-center:scroll-snap-align
snap-normal:scroll-snap-stop
snap-always:scroll-snap-stop
scroll-m:scroll-margin
scroll-mx:scroll-margin-inline
scroll-my:scroll-margin-block
scroll-ms:scroll-margin-inline-start
scroll-me:scroll-margin-inline-end
scroll-mt:scroll-margin-top
scroll-mr:scroll-margin-right
scroll-mb:scroll-margin-bottom
scroll-ml:scroll-margin-left
scroll-p:scroll-padding
scroll-px:scroll-padding-inline
scroll-py:scroll-padding-block
scroll-ps:scroll-padding-inline-start
scroll-pe:scroll-padding-inline-end
scroll-pt:scroll-padding-top
scroll-pr:scroll-padding-right
scroll-pb:scroll-padding-bottom
scroll-pl:scroll-padding-left
list-inside:list-style-position
list-outside:list-style-position
list:list-style-type
list-image:list-style-image
appearance-none:appearance
appearance-auto:appearance
columns:columns
break-before:break-before
break-inside:break-inside
break-after:break-after
auto-cols:grid-auto-columns
grid-flow-row:grid-auto-flow
grid-flow-col:grid-auto-flow
grid-flow-dense:grid-auto-flow
grid-flow-row-dense:grid-auto-flow
grid-flow-col-dense:grid-auto-flow
auto-rows:grid-auto-rows
grid-cols:grid-template-columns
grid-rows:grid-template-rows
flex-row:flex-direction
flex-row-reverse:flex-direction
flex-col:flex-direction
flex-col-reverse:flex-direction
flex-wrap:flex-wrap
flex-nowrap:flex-wrap
flex-wrap-reverse:flex-wrap
place-content:place-content
place-items:place-items
content-center:align-content
content-start:align-content
content-end:align-content
content-between:align-content
content-around:align-content
content-evenly:align-content
content-baseline:align-content
content-stretch:align-content
content-normal:align-content
items-start:align-items
items-end:align-items
items-center:align-items
items-baseline:align-items
items-stretch:align-items
justify-start:justify-content
justify-end:justify-content
justify-center:justify-content
justify-between:justify-content
justify-around:justify-content
justify-evenly:justify-content
justify-stretch:justify-content
justify-normal:justify-content
justify-baseline:justify-content
justify-items-start:justify-items
justify-items-end:justify-items
justify-items-center:justify-items
justify-items-stretch:justify-items
justify-items-normal:justify-items
gap:gap
gap-x:column-gap
gap-y:row-gap
space-x:row-gap
space-y:column-gap
space-x-reverse:--tw-space-x-reverse
space-y-reverse:--tw-space-y-reverse
divide-x:divide-x-width
divide-y:divide-y-width
divide-x-reverse:--tw-divide-y-reverse
divide-y-reverse:--tw-divide-y-reverse
divide-solid:divide-style
divide-dashed:divide-style
divide-dotted:divide-style
divide-double:divide-style
divide-none:divide-style
divide:divide-color
place-self-auto:place-self
place-self-start:place-self
place-self-end:place-self
place-self-center:place-self
place-self-stretch:place-self
place-self-baseline:place-self
self-auto:align-self
self-start:align-self
self-end:align-self
self-center:align-self
self-stretch:align-self
self-baseline:align-self
justify-self-auto:justify-self
justify-self-start:justify-self
justify-self-end:justify-self
justify-self-center:justify-self
justify-self-stretch:justify-self
overflow-auto:overflow
overflow-hidden:overflow
overflow-clip:overflow
overflow-visible:overflow
overflow-scroll:overflow
overflow-x-auto:overflow-x
overflow-x-hidden:overflow-x
overflow-x-clip:overflow-x
overflow-x-visible:overflow-x
overflow-x-scroll:overflow-x
overflow-y-auto:overflow-y
overflow-y-hidden:overflow-y
overflow-y-clip:overflow-y
overflow-y-visible:overflow-y
overflow-y-scroll:overflow-y
overscroll-auto:overscroll-behavior
overscroll-contain:overscroll-behavior
overscroll-none:overscroll-behavior
overscroll-x-auto:overscroll-behavior-x
overscroll-x-contain:overscroll-behavior-x
overscroll-x-none:overscroll-behavior-x
overscroll-y-auto:overscroll-behavior-y
overscroll-y-contain:overscroll-behavior-y
overscroll-y-none:overscroll-behavior-y
scroll-auto:scroll-behavior
scroll-smooth:scroll-behavior
truncate:overflow
rounded:border-radius
rounded-s:border-start-start-radius,border-end-start-radius
rounded-e:border-start-end-radius,border-end-end-radius
rounded-t:border-top-left-radius,border-top-right-radius
rounded-r:border-top-right-radius,border-bottom-right-radius
rounded-b:border-bottom-right-radius,border-bottom-left-radius
rounded-l:border-top-left-radius,border-bottom-left-radius
rounded-ss:border-start-start-radius
rounded-se:border-start-end-radius
rounded-ee:border-end-end-radius
rounded-es:border-end-start-radius
rounded-tl:border-top-left-radius
rounded-tr:border-top-right-radius
rounded-br:border-bottom-right-radius
rounded-bl:border-bottom-left-radius
border-x:border-inline-width
border-y:border-block-width
border-s:border-inline-start-width
border-e:border-inline-end-width
border-t:border-top-width
border-r:border-right-width
border-b:border-bottom-width
border-l:border-left-width
border:border-width
border-0:border-width
border-2:border-width
border-4:border-width
border-8:border-width
border-solid:border-style
border-dashed:border-style
border-dotted:border-style
border-double:border-style
border-hidden:border-style
border-none:border-style
bg:background-color
bg-none:background-image
bg-linear:background-image
bg-conic:background-image
bg-radial:background-image
from:--tw-gradient-from
via:--tw-gradient-via
via-none:--tw-gradient-via-stops
to:--tw-gradient-to
mask-none:mask-image
mask:mask-image
mask-add:mask-composite
mask-subtract:mask-composite
mask-intersect:mask-composite
mask-exclude:mask-composite
mask-alpha:mask-mode
mask-luminance:mask-mode
mask-match:mask-mode
mask-type-alpha:mask-type
mask-type-luminance:mask-type
mask-auto:mask-size
mask-cover:mask-size
mask-contain:mask-size
mask-size:mask-size
mask-position:mask-position
mask-repeat:mask-repeat
mask-no-repeat:mask-repeat
mask-repeat-x:mask-repeat
mask-repeat-y:mask-repeat
mask-clip:mask-clip
mask-origin:mask-origin
box-decoration-slice:box-decoration-break
box-decoration-clone:box-decoration-break
bg-auto:background-size
bg-cover:background-size
bg-contain:background-size
bg-size:background-size
bg-fixed:background-attachment
bg-local:background-attachment
bg-scroll:background-attachment
bg-clip-text:background-clip
bg-clip-border:background-clip
bg-clip-padding:background-clip
bg-clip-content:background-clip
bg-top:background-position
bg-bottom:background-position
bg-center:background-position
bg-left:background-position
bg-right:background-position
bg-top-left:background-position
bg-top-right:background-position
bg-bottom-left:background-position
bg-bottom-right:background-position
bg-position:background-position
bg-repeat:background-repeat
bg-no-repeat:background-repeat
bg-repeat-x:background-repeat
bg-repeat-y:background-repeat
bg-repeat-round:background-repeat
bg-repeat-space:background-repeat
bg-origin-border:background-origin
bg-origin-padding:background-origin
bg-origin-content:background-origin
fill:fill
fill-none:fill
stroke:stroke
stroke-none:stroke
object-contain:object-fit
object-cover:object-fit
object-fill:object-fit
object-none:object-fit
object-scale-down:object-fit
object:object-position
p:padding
px:padding-inline
py:padding-block
ps:padding-inline-start
pe:padding-inline-end
pt:padding-top
pr:padding-right
pb:padding-bottom
pl:padding-left
text-left:text-align
text-center:text-align
text-right:text-align
text-justify:text-align
text-start:text-align
text-end:text-align
indent:text-indent
align-baseline:vertical-align
align-top:vertical-align
align-middle:vertical-align
align-bottom:vertical-align
align-text-top:vertical-align
align-text-bottom:vertical-align
align-sub:vertical-align
align-super:vertical-align
align:vertical-align
font-sans:font-family
font-serif:font-family
font-mono:font-family
text:color
text-xs:font-size,line-height
text-sm:font-size,line-height
text-base:font-size,line-height
text-lg:font-size,line-height
text-xl:font-size,line-height
text-2xl:font-size,line-height
text-3xl:font-size,line-height
text-4xl:font-size,line-height
text-5xl:font-size,line-height
text-6xl:font-size,line-height
text-7xl:font-size,line-height
text-8xl:font-size,line-height
text-9xl:font-size,line-height
text-s:font-size,line-height
font-thin:font-weight
font-extralight:font-weight
font-light:font-weight
font-normal:font-weight
font-medium:font-weight
font-semibold:font-weight
font-bold:font-weight
font-extrabold:font-weight
font-black:font-weight
font:font-weight
leading:line-height
tracking:letter-spacing
text-wrap:text-wrap
text-nowrap:text-wrap
text-balance:text-wrap
text-pretty:text-wrap
break-normal:overflow-wrap
break-all:word-break
break-keep:word-break
wrap-anywhere:overflow-wrap
wrap-break-word:overflow-wrap
wrap-normal:overflow-wrap
text-ellipsis:text-overflow
text-clip:text-overflow
hyphens-none:hyphens
hyphens-manual:hyphens
hyphens-auto:hyphens
whitespace-normal:white-space
whitespace-nowrap:white-space
whitespace-pre:white-space
whitespace-pre-line:white-space
whitespace-pre-wrap:white-space
whitespace-break-spaces:white-space
uppercase:text-transform
lowercase:text-transform
capitalize:text-transform
normal-case:text-transform
italic:font-style
not-italic:font-style
font-stretch:font-stretch
normal-nums:font-variant-numeric
ordinal:font-variant-numeric
slashed-zero:font-variant-numeric
lining-nums:font-variant-numeric
oldstyle-nums:font-variant-numeric
proportional-nums:font-variant-numeric
tabular-nums:font-variant-numeric
diagonal-fractions:font-variant-numeric
stacked-fractions:font-variant-numeric
underline:text-decoration-line
overline:text-decoration-line
line-through:text-decoration-line
no-underline:text-decoration-line
decoration-solid:text-decoration-style
decoration-double:text-decoration-style
decoration-dotted:text-decoration-style
decoration-dashed:text-decoration-style
decoration-wavy:text-decoration-style
decoration-auto:text-decoration-thickness
decoration-from-font:text-decoration-thickness
decoration:text-decoration-thickness
underline-offset:text-underline-offset
antialiased:-webkit-font-smoothing
subpixel-antialiased:-webkit-font-smoothing
placeholder:placeholder-color
caret:caret-color
accent:accent-color
scheme-normal:color-scheme
scheme-dark:color-scheme
scheme-light:color-scheme
scheme-light-dark:color-scheme
scheme-only-dark:color-scheme
scheme-only-light:color-scheme
opacity:opacity
bg-blend-normal:background-blend-mode
bg-blend-multiply:background-blend-mode
bg-blend-screen:background-blend-mode
bg-blend-overlay:background-blend-mode
bg-blend-darken:background-blend-mode
bg-blend-lighten:background-blend-mode
bg-blend-color-dodge:background-blend-mode
bg-blend-color-burn:background-blend-mode
bg-blend-hard-light:background-blend-mode
bg-blend-soft-light:background-blend-mode
bg-blend-difference:background-blend-mode
bg-blend-exclusion:background-blend-mode
bg-blend-hue:background-blend-mode
bg-blend-saturation:background-blend-mode
bg-blend-color:background-blend-mode
bg-blend-luminosity:background-blend-mode
mix-blend-normal:mix-blend-mode
mix-blend-multiply:mix-blend-mode
mix-blend-screen:mix-blend-mode
mix-blend-overlay:mix-blend-mode
mix-blend-darken:mix-blend-mode
mix-blend-lighten:mix-blend-mode
mix-blend-color-dodge:mix-blend-mode
mix-blend-color-burn:mix-blend-mode
mix-blend-hard-light:mix-blend-mode
mix-blend-soft-light:mix-blend-mode
mix-blend-difference:mix-blend-mode
mix-blend-exclusion:mix-blend-mode
mix-blend-hue:mix-blend-mode
mix-blend-saturation:mix-blend-mode
mix-blend-color:mix-blend-mode
mix-blend-luminosity:mix-blend-mode
shadow:--tw-shadow,box-shadow
shadow-initial:--tw-shadow-color
inset-shadow:--tw-inset-shadow,box-shadow
inset-shadow-initial:--tw-inset-shadow-color
ring-inset:--tw-ring-shadow
ring:--tw-ring-shadow,box-shadow
inset-ring:--tw-inset-ring-shadow,box-shadow
ring-offset:--tw-ring-offset-width
outline-hidden:outline-style
outline-none:outline-style
outline-solid:outline-style
outline-dashed:outline-style
outline-dotted:outline-style
outline-double:outline-style
outline:outline-width
outline-offset:outline-offset
blur:--tw-blur,filter
brightness:--tw-brightness,filter
contrast:--tw-contrast,filter
drop-shadow:--tw-drop-shadow,filter
drop-shadow-none:--tw-drop-shadow,filter
grayscale:--tw-grayscale,filter
hue-rotate:--tw-hue-rotate,filter
invert:--tw-invert,filter
saturate:--tw-saturate,filter
sepia:--tw-sepia,filter
filter:filter
backdrop-blur:--tw-backdrop-blur,backdrop-filter
backdrop-brightness:--tw-backdrop-brightness,backdrop-filter
backdrop-contrast:--tw-backdrop-contrast,backdrop-filter
backdrop-grayscale:--tw-backdrop-grayscale,backdrop-filter
backdrop-hue-rotate:--tw-backdrop-hue-rotate,backdrop-filter
backdrop-invert:--tw-backdrop-invert,backdrop-filter
backdrop-opacity:--tw-backdrop-opacity,backdrop-filter
backdrop-saturate:--tw-backdrop-saturate,backdrop-filter
backdrop-sepia:--tw-backdrop-sepia,backdrop-filter
backdrop-filter:backdrop-filter
transition:transition-property,transition-timing-function,transition-duration
transition-all:transition-property,transition-timing-function,transition-duration
transition-colors:transition-property,transition-timing-function,transition-duration
transition-opacity:transition-property,transition-timing-function,transition-duration
transition-shadow:transition-property,transition-timing-function,transition-duration
transition-transform:transition-property,transition-timing-function,transition-duration
transition-none:transition-property
transition-discrete:transition-behavior
transition-normal:transition-behavior
delay:transition-delay
duration:transition-duration
ease:transition-timing-function
will-change:will-change
will-change-auto:will-change
will-change-scroll:will-change
will-change-contents:will-change
will-change-transform:will-change
contain-none:contain
contain-content:contain
contain-strict:contain
contain-size:contain
contain-inline-size:contain
contain-layout:contain
contain-paint:contain
contain-style:contain
contain:contain
content-none:content
content:content
select-none:user-select,-webkit-user-select
select-text:user-select,-webkit-user-select
select-all:user-select,-webkit-user-select
select-auto:user-select,-webkit-user-select
select-contain:user-select,-webkit-user-select
forced-color-adjust-none:forced-color-adjust
forced-color-adjust-auto:forced-color-adjust
sr-only:position
not-sr-only:position
";

pub const COLOR_PROPERTIES: &'static str = "\
border:border-color
ring:--tw-ring-color
inset-ring:--tw-inset-ring-color
shadow:--tw-shadow-color
inset-shadow:--tw-inset-shadow-color
divide:divide-color
";

/// Every entry of `CLASS_PROPERTIES` begins with a plain character: no class
/// prefix starts with `-` or a field mark. (Verus reads a string literal only
/// through `reveal_strlit` on the literal itself, so the text stands here
/// again; were the two copies to differ, the proof would fail.)
pub proof fn class_entries_start_plain()
    ensures
        entries_start_plain(CLASS_PROPERTIES@),
{
    let s = CLASS_PROPERTIES@;
    assert(s[0] == '@' && later_lines_start_plain(s)) by {
        reveal_strlit("\
@container:container-type
pointer-events-none:pointer-events
pointer-events-auto:pointer-events
visible:visibility
invisible:visibility
collapse:visibility
static:position
fixed:position
absolute:position
relative:position
sticky:position
inset:inset
inset-x:inset-inline
inset-y:inset-block
start:inset-inline-start
end:inset-inline-end
top:top
right:right
bottom:bottom
left:left
isolate:isolation
isolation-auto:isolation
z:z-index
order:order
col:grid-column
col-span:grid-column
col-start:grid-column-start
col-end:grid-column-end
row:grid-row
row-span:grid-row
row-start:grid-row-start
row-end:grid-row-end
float-start:float
float-end:float
float-right:float
float-left:float
float-none:float
clear-start:clear
clear-end:clear
clear-right:clear
clear-left:clear
clear-both:clear
clear-none:clear
container:--tw-container-component
m:margin
mx:margin-inline
my:margin-block
ms:margin-inline-start
me:margin-inline-end
mt:margin-top
mr:margin-right
mb:margin-bottom
ml:margin-left
box-border:box-sizing
box-content:box-sizing
block:display
inline-block:display
inline:display
flex:display
inline-flex:display
table:display
inline-table:display
table-caption:display
table-cell:display
table-column:display
table-column-group:display
table-footer-group:display
table-header-group:display
table-row-group:display
table-row:display
flow-root:display
grid:display
inline-grid:display
contents:display
list-item:display
hidden:display
line-clamp:display
field-sizing-content:field-sizing
field-sizing-fixed:field-sizing
aspect:aspect-ratio
size:width,height
h:height
max-h:max-height
min-h:min-height
w:width
max-w:max-width
min-w:min-width
flex-auto:flex
flex-initial:flex
flex-none:flex
flex-1:flex
flex-2:flex
flex-3:flex
flex-4:flex
flex-5:flex
flex-6:flex
flex-7:flex
flex-8:flex
flex-9:flex
flex-10:flex
flex-11:flex
flex-12:flex
shrink:flex-shrink
grow:flex-grow
basis:flex-basis
table-auto:table-layout
table-fixed:table-layout
caption-top:caption-side
caption-bottom:caption-side
border-collapse:border-collapse
border-separate:border-collapse
border-spacing:border-spacing
border-spacing-x:border-spacing
border-spacing-y:border-spacing
origin:transform-origin
translate:translate
translate-x:--tw-translate-x,translate
translate-y:--tw-translate-y,translate
translate-z:--tw-translate-z,translate
translate-3d:translate
scale:scale
scale-x:--tw-scale-x,scale
scale-y:--tw-scale-y,scale
scale-z:--tw-scale-z,scale
scale-3d:scale
scale-none:scale
rotate:rotate
rotate-none:rotate
rotate-x:--tw-rotate-x,transform
rotate-y:--tw-rotate-y,transform
rotate-z:--tw-rotate-z,transform
skew:--tw-skew-x,--tw-skew-y,transform
skew-x:--tw-skew-x,transform
skew-y:--tw-skew-y,transform
transform-cpu:transform
transform-gpu:transform
transform-none:transform
transform-flat:transform
transform-3d:transform
animate:animation
cursor:cursor
touch-auto:touch-action
touch-none:touch-action
touch-manipulation:touch-action
touch-pan-x:--tw-pan-x,touch-action
touch-pan-left:--tw-pan-x,touch-action
touch-pan-right:--tw-pan-x,touch-action
touch-pan-y:--tw-pan-y,touch-action
touch-pan-up:--tw-pan-y,touch-action
touch-pan-down:--tw-pan-y,touch-action
touch-pinch-zoom:--tw-pinch-zoom,touch-action
resize:resize
resize-none:resize
resize-x:resize
resize-y:resize
snap-none:scroll-snap-type
snap-x:scroll-snap-type
snap-y:scroll-snap-type
snap-both:scroll-snap-type
snap-mandatory:--tw-scroll-snap-strictness
snap-proximity:--tw-scroll-snap-strictness
snap-align-none:scroll-snap-align
snap-start:scroll-snap-align
snap-end:scroll-snap-align
snap-center:scroll-snap-align
snap-normal:scroll-snap-stop
snap-always:scroll-snap-stop
scroll-m:scroll-margin
scroll-mx:scroll-margin-inline
scroll-my:scroll-margin-block
scroll-ms:scroll-margin-inline-start
scroll-me:scroll-margin-inline-end
scroll-mt:scroll-margin-top
scroll-mr:scroll-margin-right
scroll-mb:scroll-margin-bottom
scroll-ml:scroll-margin-left
scroll-p:scroll-padding
scroll-px:scroll-padding-inline
scroll-py:scroll-padding-block
scroll-ps:scroll-padding-inline-start
scroll-pe:scroll-padding-inline-end
scroll-pt:scroll-padding-top
scroll-pr:scroll-padding-right
scroll-pb:scroll-padding-bottom
scroll-pl:scroll-padding-left
list-inside:list-style-position
list-outside:list-style-position
list:list-style-type
list-image:list-style-image
appearance-none:appearance
appearance-auto:appearance
columns:columns
break-before:break-before
break-inside:break-inside
break-after:break-after
auto-cols:grid-auto-columns
grid-flow-row:grid-auto-flow
grid-flow-col:grid-auto-flow
grid-flow-dense:grid-auto-flow
grid-flow-row-dense:grid-auto-flow
grid-flow-col-dense:grid-auto-flow
auto-rows:grid-auto-rows
grid-cols:grid-template-columns
grid-rows:grid-template-rows
flex-row:flex-direction
flex-row-reverse:flex-direction
flex-col:flex-direction
flex-col-reverse:flex-direction
flex-wrap:flex-wrap
flex-nowrap:flex-wrap
flex-wrap-reverse:flex-wrap
place-content:place-content
place-items:place-items
content-center:align-content
content-start:align-content
content-end:align-content
content-between:align-content
content-around:align-content
content-evenly:align-content
content-baseline:align-content
content-stretch:align-content
content-normal:align-content
items-start:align-items
items-end:align-items
items-center:align-items
items-baseline:align-items
items-stretch:align-items
justify-start:justify-content
justify-end:justify-content
justify-center:justify-content
justify-between:justify-content
justify-around:justify-content
justify-evenly:justify-content
justify-stretch:justify-content
justify-normal:justify-content
justify-baseline:justify-content
justify-items-start:justify-items
justify-items-end:justify-items
justify-items-center:justify-items
justify-items-stretch:justify-items
justify-items-normal:justify-items
gap:gap
gap-x:column-gap
gap-y:row-gap
space-x:row-gap
space-y:column-gap
space-x-reverse:--tw-space-x-reverse
space-y-reverse:--tw-space-y-reverse
divide-x:divide-x-width
divide-y:divide-y-width
divide-x-reverse:--tw-divide-y-reverse
divide-y-reverse:--tw-divide-y-reverse
divide-solid:divide-style
divide-dashed:divide-style
divide-dotted:divide-style
divide-double:divide-style
divide-none:divide-style
divide:divide-color
place-self-auto:place-self
place-self-start:place-self
place-self-end:place-self
place-self-center:place-self
place-self-stretch:place-self
place-self-baseline:place-self
self-auto:align-self
self-start:align-self
self-end:align-self
self-center:align-self
self-stretch:align-self
self-baseline:align-self
justify-self-auto:justify-self
justify-self-start:justify-self
justify-self-end:justify-self
justify-self-center:justify-self
justify-self-stretch:justify-self
overflow-auto:overflow
overflow-hidden:overflow
overflow-clip:overflow
overflow-visible:overflow
overflow-scroll:overflow
overflow-x-auto:overflow-x
overflow-x-hidden:overflow-x
overflow-x-clip:overflow-x
overflow-x-visible:overflow-x
overflow-x-scroll:overflow-x
overflow-y-auto:overflow-y
overflow-y-hidden:overflow-y
overflow-y-clip:overflow-y
overflow-y-visible:overflow-y
overflow-y-scroll:overflow-y
overscroll-auto:overscroll-behavior
overscroll-contain:overscroll-behavior
overscroll-none:overscroll-behavior
overscroll-x-auto:overscroll-behavior-x
overscroll-x-contain:overscroll-behavior-x
overscroll-x-none:overscroll-behavior-x
overscroll-y-auto:overscroll-behavior-y
overscroll-y-contain:overscroll-behavior-y
overscroll-y-none:overscroll-behavior-y
scroll-auto:scroll-behavior
scroll-smooth:scroll-behavior
truncate:overflow
rounded:border-radius
rounded-s:border-start-start-radius,border-end-start-radius
rounded-e:border-start-end-radius,border-end-end-radius
rounded-t:border-top-left-radius,border-top-right-radius
rounded-r:border-top-right-radius,border-bottom-right-radius
rounded-b:border-bottom-right-radius,border-bottom-left-radius
rounded-l:border-top-left-radius,border-bottom-left-radius
rounded-ss:border-start-start-radius
rounded-se:border-start-end-radius
rounded-ee:border-end-end-radius
rounded-es:border-end-start-radius
rounded-tl:border-top-left-radius
rounded-tr:border-top-right-radius
rounded-br:border-bottom-right-radius
rounded-bl:border-bottom-left-radius
border-x:border-inline-width
border-y:border-block-width
border-s:border-inline-start-width
border-e:border-inline-end-width
border-t:border-top-width
border-r:border-right-width
border-b:border-bottom-width
border-l:border-left-width
border:border-width
border-0:border-width
border-2:border-width
border-4:border-width
border-8:border-width
border-solid:border-style
border-dashed:border-style
border-dotted:border-style
border-double:border-style
border-hidden:border-style
border-none:border-style
bg:background-color
bg-none:background-image
bg-linear:background-image
bg-conic:background-image
bg-radial:background-image
from:--tw-gradient-from
via:--tw-gradient-via
via-none:--tw-gradient-via-stops
to:--tw-gradient-to
mask-none:mask-image
mask:mask-image
mask-add:mask-composite
mask-subtract:mask-composite
mask-intersect:mask-composite
mask-exclude:mask-composite
mask-alpha:mask-mode
mask-luminance:mask-mode
mask-match:mask-mode
mask-type-alpha:mask-type
mask-type-luminance:mask-type
mask-auto:mask-size
mask-cover:mask-size
mask-contain:mask-size
mask-size:mask-size
mask-position:mask-position
mask-repeat:mask-repeat
mask-no-repeat:mask-repeat
mask-repeat-x:mask-repeat
mask-repeat-y:mask-repeat
mask-clip:mask-clip
mask-origin:mask-origin
box-decoration-slice:box-decoration-break
box-decoration-clone:box-decoration-break
bg-auto:background-size
bg-cover:background-size
bg-contain:background-size
bg-size:background-size
bg-fixed:background-attachment
bg-local:background-attachment
bg-scroll:background-attachment
bg-clip-text:background-clip
bg-clip-border:background-clip
bg-clip-padding:background-clip
bg-clip-content:background-clip
bg-top:background-position
bg-bottom:background-position
bg-center:background-position
bg-left:background-position
bg-right:background-position
bg-top-left:background-position
bg-top-right:background-position
bg-bottom-left:background-position
bg-bottom-right:background-position
bg-position:background-position
bg-repeat:background-repeat
bg-no-repeat:background-repeat
bg-repeat-x:background-repeat
bg-repeat-y:background-repeat
bg-repeat-round:background-repeat
bg-repeat-space:background-repeat
bg-origin-border:background-origin
bg-origin-padding:background-origin
bg-origin-content:background-origin
fill:fill
fill-none:fill
stroke:stroke
stroke-none:stroke
object-contain:object-fit
object-cover:object-fit
object-fill:object-fit
object-none:object-fit
object-scale-down:object-fit
object:object-position
p:padding
px:padding-inline
py:padding-block
ps:padding-inline-start
pe:padding-inline-end
pt:padding-top
pr:padding-right
pb:padding-bottom
pl:padding-left
text-left:text-align
text-center:text-align
text-right:text-align
text-justify:text-align
text-start:text-align
text-end:text-align
indent:text-indent
align-baseline:vertical-align
align-top:vertical-align
align-middle:vertical-align
align-bottom:vertical-align
align-text-top:vertical-align
align-text-bottom:vertical-align
align-sub:vertical-align
align-super:vertical-align
align:vertical-align
font-sans:font-family
font-serif:font-family
font-mono:font-family
text:color
text-xs:font-size,line-height
text-sm:font-size,line-height
text-base:font-size,line-height
text-lg:font-size,line-height
text-xl:font-size,line-height
text-2xl:font-size,line-height
text-3xl:font-size,line-height
text-4xl:font-size,line-height
text-5xl:font-size,line-height
text-6xl:font-size,line-height
text-7xl:font-size,line-height
text-8xl:font-size,line-height
text-9xl:font-size,line-height
text-s:font-size,line-height
font-thin:font-weight
font-extralight:font-weight
font-light:font-weight
font-normal:font-weight
font-medium:font-weight
font-semibold:font-weight
font-bold:font-weight
font-extrabold:font-weight
font-black:font-weight
font:font-weight
leading:line-height
tracking:letter-spacing
text-wrap:text-wrap
text-nowrap:text-wrap
text-balance:text-wrap
text-pretty:text-wrap
break-normal:overflow-wrap
break-all:word-break
break-keep:word-break
wrap-anywhere:overflow-wrap
wrap-break-word:overflow-wrap
wrap-normal:overflow-wrap
text-ellipsis:text-overflow
text-clip:text-overflow
hyphens-none:hyphens
hyphens-manual:hyphens
hyphens-auto:hyphens
whitespace-normal:white-space
whitespace-nowrap:white-space
whitespace-pre:white-space
whitespace-pre-line:white-space
whitespace-pre-wrap:white-space
whitespace-break-spaces:white-space
uppercase:text-transform
lowercase:text-transform
capitalize:text-transform
normal-case:text-transform
italic:font-style
not-italic:font-style
font-stretch:font-stretch
normal-nums:font-variant-numeric
ordinal:font-variant-numeric
slashed-zero:font-variant-numeric
lining-nums:font-variant-numeric
oldstyle-nums:font-variant-numeric
proportional-nums:font-variant-numeric
tabular-nums:font-variant-numeric
diagonal-fractions:font-variant-numeric
stacked-fractions:font-variant-numeric
underline:text-decoration-line
overline:text-decoration-line
line-through:text-decoration-line
no-underline:text-decoration-line
decoration-solid:text-decoration-style
decoration-double:text-decoration-style
decoration-dotted:text-decoration-style
decoration-dashed:text-decoration-style
decoration-wavy:text-decoration-style
decoration-auto:text-decoration-thickness
decoration-from-font:text-decoration-thickness
decoration:text-decoration-thickness
underline-offset:text-underline-offset
antialiased:-webkit-font-smoothing
subpixel-antialiased:-webkit-font-smoothing
placeholder:placeholder-color
caret:caret-color
accent:accent-color
scheme-normal:color-scheme
scheme-dark:color-scheme
scheme-light:color-scheme
scheme-light-dark:color-scheme
scheme-only-dark:color-scheme
scheme-only-light:color-scheme
opacity:opacity
bg-blend-normal:background-blend-mode
bg-blend-multiply:background-blend-mode
bg-blend-screen:background-blend-mode
bg-blend-overlay:background-blend-mode
bg-blend-darken:background-blend-mode
bg-blend-lighten:background-blend-mode
bg-blend-color-dodge:background-blend-mode
bg-blend-color-burn:background-blend-mode
bg-blend-hard-light:background-blend-mode
bg-blend-soft-light:background-blend-mode
bg-blend-difference:background-blend-mode
bg-blend-exclusion:background-blend-mode
bg-blend-hue:background-blend-mode
bg-blend-saturation:background-blend-mode
bg-blend-color:background-blend-mode
bg-blend-luminosity:background-blend-mode
mix-blend-normal:mix-blend-mode
mix-blend-multiply:mix-blend-mode
mix-blend-screen:mix-blend-mode
mix-blend-overlay:mix-blend-mode
mix-blend-darken:mix-blend-mode
mix-blend-lighten:mix-blend-mode
mix-blend-color-dodge:mix-blend-mode
mix-blend-color-burn:mix-blend-mode
mix-blend-hard-light:mix-blend-mode
mix-blend-soft-light:mix-blend-mode
mix-blend-difference:mix-blend-mode
mix-blend-exclusion:mix-blend-mode
mix-blend-hue:mix-blend-mode
mix-blend-saturation:mix-blend-mode
mix-blend-color:mix-blend-mode
mix-blend-luminosity:mix-blend-mode
shadow:--tw-shadow,box-shadow
shadow-initial:--tw-shadow-color
inset-shadow:--tw-inset-shadow,box-shadow
inset-shadow-initial:--tw-inset-shadow-color
ring-inset:--tw-ring-shadow
ring:--tw-ring-shadow,box-shadow
inset-ring:--tw-inset-ring-shadow,box-shadow
ring-offset:--tw-ring-offset-width
outline-hidden:outline-style
outline-none:outline-style
outline-solid:outline-style
outline-dashed:outline-style
outline-dotted:outline-style
outline-double:outline-style
outline:outline-width
outline-offset:outline-offset
blur:--tw-blur,filter
brightness:--tw-brightness,filter
contrast:--tw-contrast,filter
drop-shadow:--tw-drop-shadow,filter
drop-shadow-none:--tw-drop-shadow,filter
grayscale:--tw-grayscale,filter
hue-rotate:--tw-hue-rotate,filter
invert:--tw-invert,filter
saturate:--tw-saturate,filter
sepia:--tw-sepia,filter
filter:filter
backdrop-blur:--tw-backdrop-blur,backdrop-filter
backdrop-brightness:--tw-backdrop-brightness,backdrop-filter
backdrop-contrast:--tw-backdrop-contrast,backdrop-filter
backdrop-grayscale:--tw-backdrop-grayscale,backdrop-filter
backdrop-hue-rotate:--tw-backdrop-hue-rotate,backdrop-filter
backdrop-invert:--tw-backdrop-invert,backdrop-filter
backdrop-opacity:--tw-backdrop-opacity,backdrop-filter
backdrop-saturate:--tw-backdrop-saturate,backdrop-filter
backdrop-sepia:--tw-backdrop-sepia,backdrop-filter
backdrop-filter:backdrop-filter
transition:transition-property,transition-timing-function,transition-duration
transition-all:transition-property,transition-timing-function,transition-duration
transition-colors:transition-property,transition-timing-function,transition-duration
transition-opacity:transition-property,transition-timing-function,transition-duration
transition-shadow:transition-property,transition-timing-function,transition-duration
transition-transform:transition-property,transition-timing-function,transition-duration
transition-none:transition-property
transition-discrete:transition-behavior
transition-normal:transition-behavior
delay:transition-delay
duration:transition-duration
ease:transition-timing-function
will-change:will-change
will-change-auto:will-change
will-change-scroll:will-change
will-change-contents:will-change
will-change-transform:will-change
contain-none:contain
contain-content:contain
contain-strict:contain
contain-size:contain
contain-inline-size:contain
contain-layout:contain
contain-paint:contain
contain-style:contain
contain:contain
content-none:content
content:content
select-none:user-select,-webkit-user-select
select-text:user-select,-webkit-user-select
select-all:user-select,-webkit-user-select
select-auto:user-select,-webkit-user-select
select-contain:user-select,-webkit-user-select
forced-color-adjust-none:forced-color-adjust
forced-color-adjust-auto:forced-color-adjust
sr-only:position
not-sr-only:position
");
        assert(later_lines_start_plain(s)) by {
            reveal(later_lines_start_plain);
        }
    }
}

} // verus!
